//! The icon library: named images that a placement can ask for instead of text.
//!
//! Icons come in a tar archive, one WebP image per entry. The name of an icon is
//! the path of its entry without `.webp`; it has the form `<set>:<icon>`. A
//! placement names an icon in full, or by what stands behind the last colon.

use std::io::Read;
use vstd::prelude::*;
use crate::canvas::Canvas;
use crate::packet::copy_bytes;
use crate::placement::{CanvasLimits, Data, PlacementModel};
use crate::stamp::{draw_image, drawing_of, RenderError, Stamp};
use crate::webp::{decode_webp, webp_decoding, DecodedImage};
use crate::text::{chars_of, first_index_of, last_index_of, replaced};
use crate::text_scan::{find_first, find_last, replace_all};

verus! {

/// Mathematical model of an icon: its name and the bytes of its image.
pub struct IconModel {
    pub path: Seq<char>,
    pub bytes: Seq<u8>,
}

/// One icon of the library.
#[derive(Debug)]
pub struct EfficientEntry {
    pub path: String,
    pub bytes: Vec<u8>,
}

impl View for EfficientEntry {
    type V = IconModel;

    open spec fn view(&self) -> IconModel {
        IconModel { path: self.path@, bytes: self.bytes@ }
    }
}

impl Clone for EfficientEntry {
    fn clone(&self) -> (copy: EfficientEntry)
        ensures
            copy@ == self@,
    {
        EfficientEntry { path: self.path.clone(), bytes: copy_bytes(&self.bytes) }
    }
}

/// The name of the icon that an entry of the archive holds: its path with every
/// `.webp` taken out.
pub open spec fn icon_name(path: Seq<char>) -> Seq<char> {
    replaced(path, ".webp"@, Seq::empty())
}

/// What stands behind the last colon of a name, or the whole name where it has
/// none.
pub open spec fn short_name(path: Seq<char>) -> Seq<char> {
    match last_index_of(path, ':') {
        Some(colon) => path.subrange(colon + 1, path.len() as int),
        None => path,
    }
}

/// Whether a placement that asks for `name` means the icon at `path`: a name with
/// a colon must be the whole path, a name without one the short name.
pub open spec fn names_icon(name: Seq<char>, path: Seq<char>) -> bool {
    if first_index_of(name, ':') is Some {
        path == name
    } else {
        short_name(path) == name
    }
}

/// The place of the first icon that a name means.
pub open spec fn icon_index(icons: Seq<IconModel>, name: Seq<char>) -> Option<int>
    decreases icons.len(),
{
    if icons.len() == 0 {
        None
    } else if names_icon(name, icons.first().path) {
        Some(0int)
    } else {
        match icon_index(icons.drop_first(), name) {
            Some(place) => Some(place + 1),
            None => None,
        }
    }
}

/// The icons that a list of entries stands for.
pub open spec fn icons_of(entries: Seq<EfficientEntry>) -> Seq<IconModel> {
    entries.map_values(|entry: EfficientEntry| entry@)
}

/// The name of the icon that the entry at `path` holds: the path without
/// `.webp`.
pub fn strip_image_suffix(path: &str) -> (name: String)
    ensures
        name@ == icon_name(path@),
{
    let text = chars_of(path);
    let pattern = chars_of(".webp");
    let nothing: Vec<char> = Vec::new();
    replace_all(&text, &pattern, &nothing)
}

/// Whether a placement that asks for `name` means the icon at `path`. `qualified`
/// says whether the name holds a colon.
fn means_icon(name: &String, qualified: bool, path: &String) -> (yes: bool)
    requires
        qualified == first_index_of(name@, ':') is Some,
    ensures
        yes == names_icon(name@, path@),
{
    if qualified {
        *path == *name
    } else {
        let text = chars_of(path.as_str());
        let from: usize = match find_last(&text, ':') {
            Some(colon) => colon + 1,
            None => 0,
        };
        proof {
            assert(text@.subrange(0, text@.len() as int) =~= text@);
        }
        let short = path.as_str().substring_char(from, text.len()).to_owned();
        short == *name
    }
}

/// Looks an icon up by the name that a placement asks for: the first icon that
/// the name means.
pub fn find_icon<'a>(icons: &'a Vec<EfficientEntry>, name: &str) -> (found: Option<
    &'a EfficientEntry,
>)
    ensures
        found is Some <==> icon_index(icons_of(icons@), name@) is Some,
        found is Some ==> *found->Some_0 == icons@[icon_index(icons_of(icons@), name@)->Some_0],
{
    let wanted = name.to_owned();
    let text = chars_of(name);
    proof {
        assert(text@.subrange(0, text@.len() as int) =~= text@);
    }
    let qualified = find_first(&text, 0, text.len(), ':').is_some();
    let mut i: usize = 0;
    proof {
        assert(icons_of(icons@).subrange(0, icons@.len() as int) =~= icons_of(icons@));
    }
    while i < icons.len()
        invariant
            i <= icons.len(),
            wanted@ == name@,
            qualified == first_index_of(name@, ':') is Some,
            icon_index(icons_of(icons@), name@) == (match icon_index(
                icons_of(icons@).subrange(i as int, icons@.len() as int),
                name@,
            ) {
                Some(place) => Some(place + i),
                None => None,
            }),
        decreases icons.len() - i,
    {
        let ghost rest = icons_of(icons@).subrange(i as int, icons@.len() as int);
        proof {
            assert(rest.first() == icons@[i as int]@);
            assert(rest.drop_first() =~= icons_of(icons@).subrange(i + 1, icons@.len() as int));
        }
        if means_icon(&wanted, qualified, &icons[i].path) {
            return Some(&icons[i]);
        }
        i += 1;
    }
    None
}

/// Lists the entries of a tar archive with `tar_wasi::Archive`: `entries` on the
/// bytes, and of each entry that can be read its `path`, as text, and its bytes.
/// Nothing is claimed of the result: how a path turns into text depends on the
/// platform.
#[verifier::external_body]
pub(crate) fn list_archive(archive: &[u8]) -> (entries: Vec<EfficientEntry>) {
    let mut entries = Vec::new();
    let mut archive = tar_wasi::Archive::new(std::io::Cursor::new(archive));
    if let Ok(listed) = archive.entries() {
        for entry in listed.flatten() {
            let path = entry.path().ok().map(|path| path.to_string_lossy().to_string());
            if let Some(path) = path {
                entries.push(EfficientEntry { path, bytes: entry.bytes().flatten().collect() });
            }
        }
    }
    entries
}

/// The icon that an entry of the archive holds.
pub open spec fn icon_of(entry: IconModel) -> IconModel {
    IconModel { path: icon_name(entry.path), bytes: entry.bytes }
}

/// The icons that the entries of an archive hold.
pub open spec fn icons_in(entries: Seq<IconModel>) -> Seq<IconModel> {
    entries.map_values(|entry: IconModel| icon_of(entry))
}

/// Turns the entries of an archive into icons: each keeps its bytes and is named
/// by its path without `.webp`.
pub fn index_icons(entries: Vec<EfficientEntry>) -> (icons: Vec<EfficientEntry>)
    ensures
        icons_of(icons@) == icons_in(icons_of(entries@)),
{
    let mut icons: Vec<EfficientEntry> = Vec::with_capacity(entries.len());
    let mut i: usize = 0;
    while i < entries.len()
        invariant
            i <= entries.len(),
            icons@.len() == i,
            forall|k: int| 0 <= k < i ==> (#[trigger] icons@[k])@ == icon_of(entries@[k]@),
        decreases entries.len() - i,
    {
        let entry = &entries[i];
        icons.push(
            EfficientEntry {
                path: strip_image_suffix(entry.path.as_str()),
                bytes: copy_bytes(&entry.bytes),
            },
        );
        i += 1;
    }
    proof {
        assert(icons_of(icons@) =~= icons_in(icons_of(entries@)));
    }
    icons
}

/// Reads the icons of a tar archive: the entries that the archive lists, each
/// named by its path without `.webp`.
pub fn load_icons(archive: &[u8]) -> (icons: Vec<EfficientEntry>)
    ensures
        exists|listed: Seq<IconModel>| #[trigger] icons_in(listed) == icons_of(icons@),
{
    let listed = list_archive(archive);
    let ghost entries = icons_of(listed@);
    let icons = index_icons(listed);
    proof {
        assert(icons_in(entries) == icons_of(icons@));
    }
    icons
}

/// What became of a placement.
#[derive(Debug, Clone, Copy, PartialEq, Eq, Structural)]
pub enum Placed {
    /// The placement names an icon, which is now drawn on the canvas.
    Icon,
    /// The placement names no icon: its text is to be drawn.
    Text,
    /// The placement names an icon that cannot be drawn.
    Failed(RenderError),
}

/// Where and how large the icon of a placement is drawn.
pub open spec fn stamp_of(placement: PlacementModel, limits: CanvasLimits) -> Stamp {
    Stamp {
        size: placement.size,
        posx: placement.x,
        posy: placement.y,
        canvas_width: limits.width,
        canvas_height: limits.height,
    }
}

/// What drawing an icon from its file gives.
pub open spec fn icon_drawing(
    canvas: Seq<u32>,
    decoded: Option<(u32, u32, bool, Seq<u8>)>,
    stamp: Stamp,
) -> Result<Seq<u32>, RenderError> {
    match decoded {
        None => Err(RenderError::NotAnImage),
        Some(parts) => drawing_of(canvas, parts, stamp),
    }
}

/// What became of a placement, and the canvas after it.
pub open spec fn placing_of(
    canvas: Seq<u32>,
    placement: PlacementModel,
    icons: Seq<IconModel>,
    limits: CanvasLimits,
) -> (Placed, Seq<u32>) {
    match icon_index(icons, placement.text) {
        None => (Placed::Text, canvas),
        Some(place) => match icon_drawing(
            canvas,
            webp_decoding(icons[place].bytes),
            stamp_of(placement, limits),
        ) {
            Ok(pixels) => (Placed::Icon, pixels),
            Err(error) => (Placed::Failed(error), canvas),
        },
    }
}

/// Draws a decoded icon, or reports that its file did not decode.
pub fn draw_decoded(canvas: &mut Canvas, decoded: Option<DecodedImage>, stamp: &Stamp) -> (placed:
    Placed)
    ensures
        match icon_drawing(
            old(canvas)@,
            match decoded {
                Some(image) => Some(image.parts()),
                None => None,
            },
            *stamp,
        ) {
            Ok(pixels) => placed == Placed::Icon && final(canvas)@ == pixels,
            Err(error) => placed == Placed::Failed(error) && final(canvas)@ == old(canvas)@,
        },
        final(canvas).spec_width() == old(canvas).spec_width(),
        final(canvas).spec_height() == old(canvas).spec_height(),
{
    match decoded {
        None => Placed::Failed(RenderError::NotAnImage),
        Some(image) => match draw_image(canvas, &image, stamp) {
            Ok(()) => Placed::Icon,
            Err(error) => Placed::Failed(error),
        },
    }
}

/// An icon that is found has a place in the library, and the name means it.
pub proof fn lemma_icon_index_in_range(icons: Seq<IconModel>, name: Seq<char>)
    requires
        icon_index(icons, name) is Some,
    ensures
        0 <= icon_index(icons, name)->Some_0 < icons.len(),
        names_icon(name, icons[icon_index(icons, name)->Some_0].path),
    decreases icons.len(),
{
    if icons.len() > 0 && !names_icon(name, icons.first().path) {
        lemma_icon_index_in_range(icons.drop_first(), name);
    }
}

/// Puts a placement on the canvas. Where the placement names an icon of the
/// library, the icon is decoded and drawn; where it names none, the canvas is left
/// alone and the text of the placement is to be drawn.
pub fn place_item(
    canvas: &mut Canvas,
    data: &Data,
    icons: &Vec<EfficientEntry>,
    limits: &CanvasLimits,
) -> (placed: Placed)
    ensures
        (placed, final(canvas)@) == placing_of(old(canvas)@, data@, icons_of(icons@), *limits),
        final(canvas).spec_width() == old(canvas).spec_width(),
        final(canvas).spec_height() == old(canvas).spec_height(),
{
    match find_icon(icons, data.text.as_str()) {
        None => Placed::Text,
        Some(entry) => {
            let stamp = Stamp {
                size: data.size,
                posx: data.x,
                posy: data.y,
                canvas_width: limits.width,
                canvas_height: limits.height,
            };
            let decoded = decode_webp(entry.bytes.as_slice());
            proof {
                let place = icon_index(icons_of(icons@), data@.text)->Some_0;
                lemma_icon_index_in_range(icons_of(icons@), data@.text);
                assert(icons_of(icons@)[place] == icons@[place]@);
                assert(stamp == stamp_of(data@, *limits));
            }
            draw_decoded(canvas, decoded, &stamp)
        },
    }
}

} // verus!
