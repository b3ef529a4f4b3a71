//! Renders of player skins: which pose goes with which crop, where a render
//! is fetched, and what kind of picture came back.

use vstd::prelude::*;
use vstd::string::StringExecFns;
use crate::text::{has_prefix, same_text, starts_with};

verus! {

/// The pose of the player in a render.
#[derive(Clone, Copy, Debug, PartialEq, Eq, Structural)]
pub enum SkinPositionChoice {
    Default,
    Marching,
    Walking,
    Crouching,
    Crossed,
    CrissCross,
    Ultimate,
    Cheering,
    Relaxing,
    Trudging,
    Cowering,
    Pointing,
    Lunging,
    Isometric,
    Head,
    Skin,
}

/// How much of the player a render shows.
#[derive(Clone, Copy, Debug, PartialEq, Eq, Structural)]
pub enum RenderTypeChoice {
    Full,
    Bust,
    Face,
    Head,
    Default,
    Processed,
}

impl SkinPositionChoice {
    /// The word for the pose in the address of a render.
    pub open spec fn word(self) -> Seq<char> {
        match self {
            SkinPositionChoice::Default => "default"@,
            SkinPositionChoice::Marching => "marching"@,
            SkinPositionChoice::Walking => "walking"@,
            SkinPositionChoice::Crouching => "crouching"@,
            SkinPositionChoice::Crossed => "crossed"@,
            SkinPositionChoice::CrissCross => "criss_cross"@,
            SkinPositionChoice::Ultimate => "ultimate"@,
            SkinPositionChoice::Cheering => "cheering"@,
            SkinPositionChoice::Relaxing => "relaxing"@,
            SkinPositionChoice::Trudging => "trudging"@,
            SkinPositionChoice::Cowering => "cowering"@,
            SkinPositionChoice::Pointing => "pointing"@,
            SkinPositionChoice::Lunging => "lunging"@,
            SkinPositionChoice::Isometric => "isometric"@,
            SkinPositionChoice::Head => "head"@,
            SkinPositionChoice::Skin => "skin"@,
        }
    }

    /// The pose shows the whole player standing: any pose but the isometric
    /// one, the head alone and the flat skin.
    pub open spec fn is_standing(self) -> bool {
        !(self is Isometric || self is Head || self is Skin)
    }

    /// The word for the pose.
    pub fn to_string(&self) -> (s: String)
        ensures
            s@ == self.word(),
    {
        match self {
            SkinPositionChoice::Default => String::from_str("default"),
            SkinPositionChoice::Marching => String::from_str("marching"),
            SkinPositionChoice::Walking => String::from_str("walking"),
            SkinPositionChoice::Crouching => String::from_str("crouching"),
            SkinPositionChoice::Crossed => String::from_str("crossed"),
            SkinPositionChoice::CrissCross => String::from_str("criss_cross"),
            SkinPositionChoice::Ultimate => String::from_str("ultimate"),
            SkinPositionChoice::Cheering => String::from_str("cheering"),
            SkinPositionChoice::Relaxing => String::from_str("relaxing"),
            SkinPositionChoice::Trudging => String::from_str("trudging"),
            SkinPositionChoice::Cowering => String::from_str("cowering"),
            SkinPositionChoice::Pointing => String::from_str("pointing"),
            SkinPositionChoice::Lunging => String::from_str("lunging"),
            SkinPositionChoice::Isometric => String::from_str("isometric"),
            SkinPositionChoice::Head => String::from_str("head"),
            SkinPositionChoice::Skin => String::from_str("skin"),
        }
    }
}

impl RenderTypeChoice {
    /// The word for the crop in the address of a render.
    pub open spec fn word(self) -> Seq<char> {
        match self {
            RenderTypeChoice::Full => "full"@,
            RenderTypeChoice::Bust => "bust"@,
            RenderTypeChoice::Face => "face"@,
            RenderTypeChoice::Head => "head"@,
            RenderTypeChoice::Default => "default"@,
            RenderTypeChoice::Processed => "processed"@,
        }
    }

    /// The word for the crop.
    pub fn to_string(&self) -> (s: String)
        ensures
            s@ == self.word(),
    {
        match self {
            RenderTypeChoice::Full => String::from_str("full"),
            RenderTypeChoice::Bust => String::from_str("bust"),
            RenderTypeChoice::Face => String::from_str("face"),
            RenderTypeChoice::Head => String::from_str("head"),
            RenderTypeChoice::Default => String::from_str("default"),
            RenderTypeChoice::Processed => String::from_str("processed"),
        }
    }
}

/// The crops that a pose can be rendered in, in the order in which they are
/// offered: full, bust and face for a standing pose; those and the head for
/// the isometric pose; the full crop alone for the head; the skin as it is
/// or processed for the flat skin.
pub open spec fn allowed_renders(pos: SkinPositionChoice) -> Seq<RenderTypeChoice> {
    if pos.is_standing() {
        seq![RenderTypeChoice::Full, RenderTypeChoice::Bust, RenderTypeChoice::Face]
    } else if pos is Isometric {
        seq![
            RenderTypeChoice::Full,
            RenderTypeChoice::Bust,
            RenderTypeChoice::Face,
            RenderTypeChoice::Head,
        ]
    } else if pos is Head {
        seq![RenderTypeChoice::Full]
    } else {
        seq![RenderTypeChoice::Default, RenderTypeChoice::Processed]
    }
}

/// The address of a render of the skin of the player with the id `id`.
pub open spec fn render_address(
    pos: SkinPositionChoice,
    id: Seq<char>,
    render_type: RenderTypeChoice,
) -> Seq<char> {
    "https://starlightskins.lunareclipse.studio/render/"@ + pos.word() + seq!['/'] + id + seq![
        '/',
    ] + render_type.word()
}

/// The ending of the name of a file that holds a picture of the kind
/// `content_type`, for the three kinds of picture that are taken.
pub open spec fn ending_of(content_type: Seq<char>) -> Option<Seq<char>> {
    if content_type == "image/png"@ {
        Some("png"@)
    } else if content_type == "image/jpeg"@ || content_type == "image/jpg"@ {
        Some("jpg"@)
    } else if content_type == "image/webp"@ {
        Some("webp"@)
    } else {
        None
    }
}

/// The crops that a pose can be rendered in.
pub fn get_allowed_render_types(pos: &SkinPositionChoice) -> (allowed: Vec<RenderTypeChoice>)
    ensures
        allowed@ == allowed_renders(*pos),
{
    let mut allowed: Vec<RenderTypeChoice> = Vec::new();
    match pos {
        SkinPositionChoice::Isometric => {
            allowed.push(RenderTypeChoice::Full);
            allowed.push(RenderTypeChoice::Bust);
            allowed.push(RenderTypeChoice::Face);
            allowed.push(RenderTypeChoice::Head);
        },
        SkinPositionChoice::Head => {
            allowed.push(RenderTypeChoice::Full);
        },
        SkinPositionChoice::Skin => {
            allowed.push(RenderTypeChoice::Default);
            allowed.push(RenderTypeChoice::Processed);
        },
        _ => {
            allowed.push(RenderTypeChoice::Full);
            allowed.push(RenderTypeChoice::Bust);
            allowed.push(RenderTypeChoice::Face);
        },
    }
    assert(allowed@ =~= allowed_renders(*pos));
    allowed
}

/// Whether a pose can be rendered in a crop.
pub fn is_render_allowed(pos: &SkinPositionChoice, render_type: &RenderTypeChoice) -> (yes: bool)
    ensures
        yes == allowed_renders(*pos).contains(*render_type),
{
    let allowed = get_allowed_render_types(pos);
    let mut i: usize = 0;
    while i < allowed.len()
        invariant
            i <= allowed.len(),
            allowed@ == allowed_renders(*pos),
            forall|j: int| 0 <= j < i ==> allowed@[j] != *render_type,
        decreases allowed.len() - i,
    {
        if allowed[i] == *render_type {
            return true;
        }
        i = i + 1;
    }
    false
}

/// The address of a render of the skin of the player with the id `id`.
pub fn skin_url(pos: &SkinPositionChoice, id: &str, render_type: &RenderTypeChoice) -> (url: String)
    ensures
        url@ == render_address(*pos, id@, *render_type),
{
    let mut url = String::from_str("https://starlightskins.lunareclipse.studio/render/");
    url.append(pos.to_string().as_str());
    url.push('/');
    url.append(id);
    url.push('/');
    url.append(render_type.to_string().as_str());
    assert(url@ =~= render_address(*pos, id@, *render_type));
    url
}

/// Whether a content type is that of a picture: whether it begins with `image/`.
pub fn is_image(content_type: &str) -> (yes: bool)
    ensures
        yes == starts_with(content_type@, "image/"@),
{
    has_prefix(content_type, "image/")
}

/// The ending of the name of a file that holds a picture of the kind
/// `content_type`; nothing for a kind that is not taken.
pub fn file_extension(content_type: &str) -> (ending: Option<&'static str>)
    ensures
        match ending_of(content_type@) {
            Some(e) => ending is Some && ending->Some_0@ == e,
            None => ending is None,
        },
{
    if same_text(content_type, "image/png") {
        Some("png")
    } else if same_text(content_type, "image/jpeg") || same_text(content_type, "image/jpg") {
        Some("jpg")
    } else if same_text(content_type, "image/webp") {
        Some("webp")
    } else {
        None
    }
}

} // verus!
