//! The request that asks the external text parser for a placement, and what is
//! made of its answer.

use vstd::prelude::*;
use vstd::string::StringExecFns;
use crate::placement::{at_most, clamp_to, CanvasLimits, Data, PlacementModel};
use crate::text::{chars_of, replaced};
use crate::text_scan::replace_all;

verus! {

/// Whether a character is a control character.
pub open spec fn is_control(c: char) -> bool {
    c as u32 <= 0x1F || 0x7F <= c as u32 <= 0x9F
}

/// The digit that writes a number below sixteen in base sixteen.
pub open spec fn hex_digit(value: nat) -> char {
    if value < 10 {
        ((value + 48) as u8) as char
    } else {
        ((value + 87) as u8) as char
    }
}

/// What stands for a character inside a JSON string.
pub open spec fn escaped_char(c: char) -> Seq<char> {
    if c == '"' {
        seq!['\\', '"']
    } else if c == '\\' {
        seq!['\\', '\\']
    } else if c == '\n' {
        seq!['\\', 'n']
    } else if c == '\r' {
        seq!['\\', 'r']
    } else if c == '\t' {
        seq!['\\', 't']
    } else if c == '\u{08}' {
        seq!['\\', 'b']
    } else if c == '\u{0C}' {
        seq!['\\', 'f']
    } else if is_control(c) {
        seq![
            '\\',
            'u',
            '0',
            '0',
            hex_digit((c as u32 / 16) as nat),
            hex_digit((c as u32 % 16) as nat),
        ]
    } else {
        seq![c]
    }
}

/// What stands for a text inside a JSON string.
pub open spec fn escaped(text: Seq<char>) -> Seq<char>
    decreases text.len(),
{
    if text.len() == 0 {
        Seq::empty()
    } else {
        escaped(text.drop_last()) + escaped_char(text.last())
    }
}

/// The digit that writes a number below sixteen in base sixteen.
fn hex_digit_of(value: u32) -> (digit: char)
    requires
        value < 16,
    ensures
        digit == hex_digit(value as nat),
{
    if value < 10 {
        ((value + 48) as u8) as char
    } else {
        ((value + 87) as u8) as char
    }
}

/// Appends what stands for a character inside a JSON string.
fn push_escaped(out: &mut String, c: char)
    ensures
        final(out)@ == old(out)@ + escaped_char(c),
{
    let code: u32 = c as u32;
    if c == '"' {
        out.push('\\');
        out.push('"');
    } else if c == '\\' {
        out.push('\\');
        out.push('\\');
    } else if c == '\n' {
        out.push('\\');
        out.push('n');
    } else if c == '\r' {
        out.push('\\');
        out.push('r');
    } else if c == '\t' {
        out.push('\\');
        out.push('t');
    } else if c == '\u{08}' {
        out.push('\\');
        out.push('b');
    } else if c == '\u{0C}' {
        out.push('\\');
        out.push('f');
    } else if code <= 0x1F || (0x7F <= code && code <= 0x9F) {
        out.push('\\');
        out.push('u');
        out.push('0');
        out.push('0');
        out.push(hex_digit_of(code / 16));
        out.push(hex_digit_of(code % 16));
    } else {
        out.push(c);
    }
    proof {
        assert(final(out)@ =~= old(out)@ + escaped_char(c));
    }
}

/// Escapes a text so that it can stand inside a JSON string: the quotation
/// mark, the backslash and the control characters are written as escapes.
pub fn escape_json_string(input: &str) -> (output: String)
    ensures
        output@ == escaped(input@),
{
    let chars = chars_of(input);
    let mut output = String::new();
    let mut i: usize = 0;
    proof {
        assert(chars@.take(0) =~= Seq::<char>::empty());
    }
    while i < chars.len()
        invariant
            i <= chars.len(),
            chars@ == input@,
            output@ == escaped(chars@.take(i as int)),
        decreases chars.len() - i,
    {
        proof {
            assert(chars@.take(i + 1).drop_last() =~= chars@.take(i as int));
        }
        push_escaped(&mut output, chars[i]);
        i += 1;
    }
    proof {
        assert(chars@.take(chars@.len() as int) =~= chars@);
    }
    output
}

/// The request without model, prompt and query: what stands in front of the
/// model.
pub open spec fn body_head() -> Seq<char> {
    "\n{\n  \"model\": \""@
}

/// What stands between the model and the prompt.
pub open spec fn body_middle() -> Seq<char> {
    "\",\n  \"messages\": [\n    {\n      \"role\": \"system\",\n      \"content\": \""@
}

/// What stands behind the prompt; the word `QUERY` in it marks the place of the
/// text.
pub open spec fn body_tail() -> Seq<char> {
    "\"\n    },\n    {\n      \"role\": \"user\",\n      \"content\": \"QUERY\"\n    }\n  ],\n  \"response_format\": {\n    \"type\": \"json_schema\",\n    \"json_schema\": {\n      \"name\": \"extract_schema\",\n      \"schema\": {\n        \"type\": \"object\",\n        \"properties\": {\n          \"rest_text\": {\n            \"description\": \"The rest of the text\",\n            \"type\": \"string\"\n          },\n          \"x\": {\n            \"description\": \"The x location\",\n            \"type\": \"integer\"\n          },\n          \"y\": {\n            \"description\": \"The y location\",\n            \"type\": \"integer\"\n          },\n          \"size\": {\n            \"description\": \"The size\",\n            \"type\": \"integer\"\n          }\n        },\n        \"additionalProperties\": false\n      }\n    }\n  }\n}\n\n    "@
}

/// The body of the request for a text: the template with model and prompt put
/// in, and then every `QUERY` replaced by the escaped text.
pub open spec fn body_of(model: Seq<char>, prompt: Seq<char>, text: Seq<char>) -> Seq<char> {
    replaced(
        body_head() + model + body_middle() + prompt + body_tail(),
        "QUERY"@,
        escaped(text),
    )
}

/// The body of the request that asks the external parser for the placement of a
/// text.
pub fn chat_request_body(model: &str, prompt: &str, text: &str) -> (body: String)
    ensures
        body@ == body_of(model@, prompt@, text@),
{
    let mut template = String::from_str("\n{\n  \"model\": \"");
    template.append(model);
    template.append("\",\n  \"messages\": [\n    {\n      \"role\": \"system\",\n      \"content\": \"");
    template.append(prompt);
    template.append("\"\n    },\n    {\n      \"role\": \"user\",\n      \"content\": \"QUERY\"\n    }\n  ],\n  \"response_format\": {\n    \"type\": \"json_schema\",\n    \"json_schema\": {\n      \"name\": \"extract_schema\",\n      \"schema\": {\n        \"type\": \"object\",\n        \"properties\": {\n          \"rest_text\": {\n            \"description\": \"The rest of the text\",\n            \"type\": \"string\"\n          },\n          \"x\": {\n            \"description\": \"The x location\",\n            \"type\": \"integer\"\n          },\n          \"y\": {\n            \"description\": \"The y location\",\n            \"type\": \"integer\"\n          },\n          \"size\": {\n            \"description\": \"The size\",\n            \"type\": \"integer\"\n          }\n        },\n        \"additionalProperties\": false\n      }\n    }\n  }\n}\n\n    ");
    let query = escape_json_string(text);
    replace_all(&chars_of(template.as_str()), &chars_of("QUERY"), &chars_of(query.as_str()))
}

/// The value of the header that authorizes the request.
pub fn authorization(api_key: &str) -> (value: String)
    ensures
        value@ == "Bearer "@ + api_key@,
{
    let mut value = String::from_str("Bearer ");
    value.append(api_key);
    value
}

/// The placement that the answer of the external parser stands for: its text,
/// and its numbers cut down to the limits.
pub fn limit_placement(text: String, x: u32, y: u32, size: u32, limits: &CanvasLimits) -> (data:
    Data)
    ensures
        data@ == (PlacementModel {
            text: text@,
            x: at_most(x, limits.width),
            y: at_most(y, limits.height),
            size: at_most(size, limits.max_size),
        }),
{
    Data {
        text,
        x: clamp_to(x, limits.width),
        y: clamp_to(y, limits.height),
        size: clamp_to(size, limits.max_size),
    }
}

} // verus!
