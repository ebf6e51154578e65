//! Notifications of errors: what is posted, to which address, under which
//! headers. Posting itself is left to the caller.

use vstd::prelude::*;
use vstd::string::StringExecFns;
use crate::text::chars_of;

verus! {

/// Something the reader of a notification can do.
#[derive(Debug)]
pub struct Action {
    action_type: String,
    title: String,
    url: String,
}

/// Mathematical model of an action.
pub struct ActionModel {
    pub action_type: Seq<char>,
    pub title: Seq<char>,
    pub url: Seq<char>,
}

impl View for Action {
    type V = ActionModel;

    closed spec fn view(&self) -> ActionModel {
        ActionModel { action_type: self.action_type@, title: self.title@, url: self.url@ }
    }
}

/// Whether a character may stand in the value of a header: the tab and every
/// character that is no control character.
pub open spec fn is_header_char(c: char) -> bool {
    c == '\t' || (c as u32 >= 32 && c as u32 != 127)
}

/// Whether a text may be the value of a header.
pub open spec fn is_header_text(text: Seq<char>) -> bool {
    forall|i: int| 0 <= i < text.len() ==> is_header_char(#[trigger] text[i])
}

/// What an action adds to the `actions` header.
pub open spec fn action_text(action: ActionModel) -> Seq<char> {
    action.action_type + ", "@ + action.title + ", "@ + action.url + ";"@
}

/// The value of the `actions` header.
pub open spec fn actions_text(actions: Seq<ActionModel>) -> Seq<char>
    decreases actions.len(),
{
    if actions.len() == 0 {
        Seq::empty()
    } else {
        actions_text(actions.drop_last()) + action_text(actions.last())
    }
}

/// Mathematical model of a notification under construction.
pub struct BuilderModel {
    pub body: Seq<char>,
    pub title: Option<Seq<char>>,
    pub priority: Option<Seq<char>>,
    pub tags: Option<Seq<char>>,
    pub actions: Seq<ActionModel>,
}

/// A notification under construction.
#[derive(Debug)]
pub struct NotifyBuilder {
    body: String,
    title: Option<String>,
    priority: Option<String>,
    tags: Option<String>,
    actions: Vec<Action>,
}

/// A notification ready to be posted.
#[derive(Debug)]
pub struct Notification {
    /// Where to post.
    pub url: String,
    /// What to post.
    pub body: String,
    /// The headers to post under, as names and values.
    pub headers: Vec<(String, String)>,
}

/// The text of an optional string.
pub open spec fn optional_text(value: Option<String>) -> Option<Seq<char>> {
    match value {
        Some(text) => Some(text@),
        None => None,
    }
}

impl View for NotifyBuilder {
    type V = BuilderModel;

    closed spec fn view(&self) -> BuilderModel {
        BuilderModel {
            body: self.body@,
            title: optional_text(self.title),
            priority: optional_text(self.priority),
            tags: optional_text(self.tags),
            actions: self.actions@.map_values(|action: Action| action@),
        }
    }
}

/// The headers of a notification, as names and values: title, priority and tags
/// where they are set, then the actions.
pub open spec fn headers_of(builder: BuilderModel) -> Seq<(Seq<char>, Seq<char>)> {
    (match builder.title {
        Some(title) => seq![("title"@, title)],
        None => Seq::empty(),
    }) + (match builder.priority {
        Some(priority) => seq![("priority"@, priority)],
        None => Seq::empty(),
    }) + (match builder.tags {
        Some(tags) => seq![("tags"@, tags)],
        None => Seq::empty(),
    }) + seq![("actions"@, actions_text(builder.actions))]
}

/// The names and values that a list of headers holds.
pub open spec fn header_texts(headers: Seq<(String, String)>) -> Seq<(Seq<char>, Seq<char>)> {
    headers.map_values(|header: (String, String)| (header.0@, header.1@))
}

/// Whether a text may be the value of a header.
pub fn is_header_value(text: &str) -> (valid: bool)
    ensures
        valid == is_header_text(text@),
{
    let chars = chars_of(text);
    let mut i: usize = 0;
    while i < chars.len()
        invariant
            i <= chars.len(),
            chars@ == text@,
            forall|k: int| 0 <= k < i ==> is_header_char(#[trigger] chars@[k]),
        decreases chars.len() - i,
    {
        let c = chars[i];
        let code: u32 = c as u32;
        if !(c == '\t' || (code >= 32 && code != 127)) {
            return false;
        }
        i += 1;
    }
    true
}

/// Whether an optional text may be the value of a header.
pub open spec fn is_optional_header_text(value: Option<Seq<char>>) -> bool {
    match value {
        Some(text) => is_header_text(text),
        None => true,
    }
}

/// Every header that is set has a value that may stand in a header.
pub open spec fn headers_valid(builder: BuilderModel) -> bool {
    &&& is_optional_header_text(builder.title)
    &&& is_optional_header_text(builder.priority)
    &&& is_optional_header_text(builder.tags)
}

impl NotifyBuilder {
    #[verifier::type_invariant]
    spec fn well_formed(&self) -> bool {
        headers_valid(self@)
    }

    /// A notification with this body, without headers and actions.
    pub fn new(body: String) -> (builder: NotifyBuilder)
        ensures
            builder@ == (BuilderModel {
                body: body@,
                title: None,
                priority: None,
                tags: None,
                actions: Seq::empty(),
            }),
    {
        let builder = NotifyBuilder {
            body,
            title: None,
            priority: None,
            tags: None,
            actions: Vec::new(),
        };
        proof {
            assert(builder@.actions =~= Seq::<ActionModel>::empty());
        }
        builder
    }

    /// Sets the title, in place of an earlier one.
    pub fn set_title(self, title: String) -> (builder: NotifyBuilder)
        requires
            is_header_text(title@),
        ensures
            builder@ == (BuilderModel { title: Some(title@), ..self@ }),
    {
        proof {
            use_type_invariant(&self);
        }
        NotifyBuilder { title: Some(title), ..self }
    }

    /// Sets the priority, in place of an earlier one.
    pub fn set_priority(self, priority: String) -> (builder: NotifyBuilder)
        requires
            is_header_text(priority@),
        ensures
            builder@ == (BuilderModel { priority: Some(priority@), ..self@ }),
    {
        proof {
            use_type_invariant(&self);
        }
        NotifyBuilder { priority: Some(priority), ..self }
    }

    /// Sets the tags, in place of earlier ones.
    pub fn set_tags(self, tags: String) -> (builder: NotifyBuilder)
        requires
            is_header_text(tags@),
        ensures
            builder@ == (BuilderModel { tags: Some(tags@), ..self@ }),
    {
        proof {
            use_type_invariant(&self);
        }
        NotifyBuilder { tags: Some(tags), ..self }
    }

    /// Adds an action that opens an address.
    pub fn add_action(self, title: String, url: String) -> (builder: NotifyBuilder)
        ensures
            builder@ == (BuilderModel {
                actions: self@.actions.push(
                    ActionModel { action_type: "view"@, title: title@, url: url@ },
                ),
                ..self@
            }),
    {
        proof {
            use_type_invariant(&self);
        }
        let NotifyBuilder { body, title: old_title, priority, tags, actions } = self;
        let mut actions = actions;
        actions.push(Action { action_type: String::from_str("view"), title, url });
        let builder = NotifyBuilder { body, title: old_title, priority, tags, actions };
        proof {
            assert(builder@.actions =~= self@.actions.push(
                ActionModel { action_type: "view"@, title: title@, url: url@ },
            ));
        }
        builder
    }

    /// The value of the `actions` header.
    pub fn actions_header(&self) -> (header: String)
        ensures
            header@ == actions_text(self@.actions),
    {
        let mut header = String::new();
        let mut i: usize = 0;
        let ghost actions = self@.actions;
        proof {
            assert(actions.take(0) =~= Seq::<ActionModel>::empty());
        }
        while i < self.actions.len()
            invariant
                i <= self.actions.len(),
                actions == self@.actions,
                actions.len() == self.actions@.len(),
                header@ == actions_text(actions.take(i as int)),
            decreases self.actions.len() - i,
        {
            let action = &self.actions[i];
            proof {
                assert(actions.take(i + 1).drop_last() =~= actions.take(i as int));
                assert(actions.take(i + 1).last() == action@);
            }
            header.append(action.action_type.as_str());
            header.append(", ");
            header.append(action.title.as_str());
            header.append(", ");
            header.append(action.url.as_str());
            header.append(";");
            i += 1;
        }
        proof {
            assert(actions.take(actions.len() as int) =~= actions);
        }
        header
    }

    /// Makes the notification ready to be posted to an address, or gives
    /// nothing where the address is empty.
    pub fn prepare(self, url: &str) -> (ready: Option<Notification>)
        requires
            is_header_text(actions_text(self@.actions)),
        ensures
            ready is Some <==> url@.len() > 0,
            ready is Some ==> ready->Some_0.url@ == url@ && ready->Some_0.body@ == self@.body
                && header_texts(ready->Some_0.headers@) == headers_of(self@),
            ready is Some ==> forall|i: int|
                0 <= i < ready->Some_0.headers@.len() ==> is_header_text(
                    (#[trigger] ready->Some_0.headers@[i]).1@,
                ),
    {
        proof {
            use_type_invariant(&self);
        }
        if url.unicode_len() == 0 {
            return None;
        }
        let actions = self.actions_header();
        let mut headers: Vec<(String, String)> = Vec::new();
        let ghost model = self@;
        proof {
            assert(header_texts(headers@) =~= Seq::<(Seq<char>, Seq<char>)>::empty());
        }
        let NotifyBuilder { body, title, priority, tags, actions: _ } = self;
        let ghost first = match model.title {
            Some(title) => seq![("title"@, title)],
            None => Seq::<(Seq<char>, Seq<char>)>::empty(),
        };
        let ghost second = match model.priority {
            Some(priority) => seq![("priority"@, priority)],
            None => Seq::<(Seq<char>, Seq<char>)>::empty(),
        };
        let ghost third = match model.tags {
            Some(tags) => seq![("tags"@, tags)],
            None => Seq::<(Seq<char>, Seq<char>)>::empty(),
        };
        match title {
            Some(title) => {
                headers.push((String::from_str("title"), title));
            },
            None => {},
        }
        proof {
            assert(header_texts(headers@) =~= first);
        }
        match priority {
            Some(priority) => {
                headers.push((String::from_str("priority"), priority));
            },
            None => {},
        }
        proof {
            assert(header_texts(headers@) =~= first + second);
        }
        match tags {
            Some(tags) => {
                headers.push((String::from_str("tags"), tags));
            },
            None => {},
        }
        proof {
            assert(header_texts(headers@) =~= first + second + third);
        }
        headers.push((String::from_str("actions"), actions));
        proof {
            assert(header_texts(headers@) =~= first + second + third + seq![
                ("actions"@, actions_text(model.actions)),
            ]);
        }
        Some(Notification { url: String::from_str(url), body, headers })
    }
}

} // verus!
