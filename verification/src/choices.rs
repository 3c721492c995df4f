//! What the window offers, and how each choice is worded.

use crate::compose::EyeOrder;
use crate::encode::VideoCodec;
use crate::extract::AnaglyphFormat;
use crate::packed::StereoPacking;
use crate::params::{ConvertParams, InputMode, MonoEye};
use crate::path::{
    dot_at, extension, extension_of, file_stem, law_a_longer_name_is_another_file,
    law_renaming_names_the_new_file, lemma_dot_in_range, lemma_name_is_plain, name_of, plain_name,
    prefix_spares, renamed, separates, stem_of, with_file_name,
};
use crate::probe::same_text;
use crate::restore::ColourRestore;
use crate::transfer::TransferFunction;
use vstd::prelude::*;
use vstd::string::*;

verus! {

/// A source file's place in a conversion.
#[derive(Debug, Clone, Copy, PartialEq, Eq, Structural)]
pub enum Role {
    Anaglyph,
    Secondary,
    RightEye,
}

impl Role {
    /// True for the source that has to be lined up against the main one.
    pub fn is_secondary(self) -> (r: bool)
        ensures
            r == (self != Role::Anaglyph),
    {
        self != Role::Anaglyph
    }

    pub open spec fn label_text(self) -> Seq<char> {
        match self {
            Role::Anaglyph => "Source"@,
            Role::Secondary => "2D source"@,
            Role::RightEye => "Right eye file"@,
        }
    }

    pub fn label(self) -> (r: &'static str)
        ensures
            r@ == self.label_text(),
    {
        match self {
            Role::Anaglyph => "Source",
            Role::Secondary => "2D source",
            Role::RightEye => "Right eye file",
        }
    }
}

/// What a 2D release of the same film is being used for.
///
/// The two are not alternatives so much as degrees of knowledge. A 2D transfer
/// always helps with colour, because the anaglyph's own colours are a blend of
/// both eyes and wrong wherever the two disagree. But if you also know it *is*
/// one of the eyes, that eye needs no reconstruction at all: it can be passed
/// straight through, perfect, and only the other one recovered, using this same
/// file for its colour.
#[derive(Debug, Clone, Copy, PartialEq, Eq, Structural)]
pub enum SecondaryRole {
    /// Colour only. Both eyes are still recovered from the anaglyph.
    ColourOnly,
    /// This file is the left eye. Passed through untouched; the right is rebuilt.
    IsLeftEye,
    /// This file is the right eye.
    IsRightEye,
}

impl Default for SecondaryRole {
    fn default() -> (r: Self)
        ensures
            r == SecondaryRole::ColourOnly,
    {
        SecondaryRole::ColourOnly
    }
}

impl SecondaryRole {
    pub const ALL: [SecondaryRole; 3] = [
        SecondaryRole::ColourOnly,
        SecondaryRole::IsLeftEye,
        SecondaryRole::IsRightEye,
    ];

    pub open spec fn label_text(self) -> Seq<char> {
        match self {
            SecondaryRole::ColourOnly => "Colour reference only"@,
            SecondaryRole::IsLeftEye => "This is the left eye"@,
            SecondaryRole::IsRightEye => "This is the right eye"@,
        }
    }

    pub fn label(self) -> (r: &'static str)
        ensures
            r@ == self.label_text(),
    {
        match self {
            SecondaryRole::ColourOnly => "Colour reference only",
            SecondaryRole::IsLeftEye => "This is the left eye",
            SecondaryRole::IsRightEye => "This is the right eye",
        }
    }

    pub open spec fn hint_text(self) -> Seq<char> {
        match self {
            SecondaryRole::ColourOnly => "Both eyes are still recovered from the anaglyph. This file only                  supplies colour, which is what removes the red/cyan cast."@,
            SecondaryRole::IsLeftEye => "The left eye is this file, untouched and perfect. Only the right                  eye is reconstructed, using this file for its colour."@,
            SecondaryRole::IsRightEye => "The right eye is this file, untouched and perfect. Only the left                  eye is reconstructed, using this file for its colour."@,
        }
    }

    pub fn hint(self) -> (r: &'static str)
        ensures
            r@ == self.hint_text(),
    {
        match self {
            SecondaryRole::ColourOnly => "Both eyes are still recovered from the anaglyph. This file only                  supplies colour, which is what removes the red/cyan cast.",
            SecondaryRole::IsLeftEye => "The left eye is this file, untouched and perfect. Only the right                  eye is reconstructed, using this file for its colour.",
            SecondaryRole::IsRightEye => "The right eye is this file, untouched and perfect. Only the left                  eye is reconstructed, using this file for its colour.",
        }
    }

    /// Which eye this file replaces outright, if any.
    pub open spec fn replaces(self) -> MonoEye {
        match self {
            SecondaryRole::ColourOnly => MonoEye::Neither,
            SecondaryRole::IsLeftEye => MonoEye::Left,
            SecondaryRole::IsRightEye => MonoEye::Right,
        }
    }

    /// Which eye this file replaces outright, if any.
    pub fn mono_eye(self) -> (r: MonoEye)
        ensures
            r == self.replaces(),
    {
        match self {
            SecondaryRole::ColourOnly => MonoEye::Neither,
            SecondaryRole::IsLeftEye => MonoEye::Left,
            SecondaryRole::IsRightEye => MonoEye::Right,
        }
    }

    /// Whether the file is handed to the renderer as an eye as well as colour.
    pub fn supplies_an_eye(self) -> (r: bool)
        ensures
            r == (self != SecondaryRole::ColourOnly),
    {
        self != SecondaryRole::ColourOnly
    }
}

/// A 2D release is handed over as an eye exactly when it replaces one.
pub proof fn law_a_2d_source_is_an_eye_when_it_replaces_one(role: SecondaryRole)
    ensures
        role != SecondaryRole::ColourOnly <==> role.replaces() != MonoEye::Neither,
{
}

/// Where a dropped file should go.
#[derive(Debug, Clone, Copy, PartialEq, Eq, Structural)]
pub enum DropTarget {
    /// Becomes the film being converted.
    Source,
    /// Becomes the 2D release.
    Secondary,
}

/// Which slot a dropped file should fill.
///
/// Dropping is how a bundled app is normally used, so it has to guess well: the
/// first video becomes the source, and anything dropped afterwards is almost
/// always the 2D release someone is adding to it.
pub fn role_for_drop(has_source: bool) -> (r: DropTarget)
    ensures
        r == (if has_source {
            DropTarget::Secondary
        } else {
            DropTarget::Source
        }),
{
    if has_source {
        DropTarget::Secondary
    } else {
        DropTarget::Source
    }
}

/// A letter of the Latin alphabet in lower case; anything else as it is.
pub open spec fn lower(c: char) -> char {
    if 'A' <= c <= 'Z' {
        (c as int + 32) as char
    } else {
        c
    }
}

/// Text with the letters of the Latin alphabet in lower case.
pub open spec fn lowered(text: Seq<char>) -> Seq<char> {
    Seq::new(text.len(), |i: int| lower(text[i]))
}

/// Puts the letters of the Latin alphabet in lower case.
fn to_lower(text: &str) -> (out: String)
    ensures
        out@ == lowered(text@),
{
    let mut out = String::new();
    for c in it: text.chars()
        invariant
            it.seq() == text@,
            out@ == lowered(text@.take(it.index() as int)),
    {
        let small = if 'A' <= c && c <= 'Z' {
            (c as u8 + 32) as char
        } else {
            c
        };
        out.push(small);
        assert(out@ =~= lowered(text@.take(it.index() + 1)));
    }
    assert(text@.take(text@.len() as int) =~= text@);
    out
}

/// The extensions of the containers that are worth trying to open.
pub open spec fn known_extensions() -> Seq<Seq<char>> {
    seq![
        "mkv"@,
        "mp4"@,
        "m4v"@,
        "mov"@,
        "avi"@,
        "mpg"@,
        "mpeg"@,
        "wmv"@,
        "ts"@,
        "m2ts"@,
        "vob"@,
        "webm"@,
    ]
}

/// Whether a path looks like something worth trying to open.
pub open spec fn is_video(path: Seq<char>, windows: bool) -> bool {
    extension_of(path, windows) matches Some(ext) && known_extensions().contains(lowered(ext))
}

/// Whether a path looks like something worth trying to open.
pub fn looks_like_video(path: &str, windows: bool) -> (r: bool)
    ensures
        r == is_video(path@, windows),
{
    let known = [
        "mkv",
        "mp4",
        "m4v",
        "mov",
        "avi",
        "mpg",
        "mpeg",
        "wmv",
        "ts",
        "m2ts",
        "vob",
        "webm",
    ];
    let ext = match extension(path, windows) {
        Some(ext) => to_lower(ext.as_str()),
        None => return false,
    };
    let ghost all = known_extensions();
    let mut i: usize = 0;
    while i < known.len()
        invariant
            known@.len() == all.len() == 12,
            i <= 12,
            forall|k: int| 0 <= k < 12 ==> (#[trigger] known@[k])@ == all[k],
            forall|k: int| 0 <= k < i ==> #[trigger] all[k] != ext@,
            all == known_extensions(),
            extension_of(path@, windows) matches Some(e) && lowered(e) == ext@,
        decreases 12 - i,
    {
        if same_text(known[i], ext.as_str()) {
            assert(all[i as int] == ext@);
            return true;
        }
        i += 1;
    }
    false
}

/// The name of a film's default output.
pub open spec fn default_output_name(input: Seq<char>, windows: bool) -> Seq<char> {
    let stem = match stem_of(input, windows) {
        Some(stem) => stem,
        None => "output"@,
    };
    let ext = match extension_of(input, windows) {
        Some(ext) => ext,
        None => "mkv"@,
    };
    stem + "-stereo."@ + ext
}

/// Where a film's output goes unless another place is chosen.
pub open spec fn default_output(input: Seq<char>, windows: bool) -> Seq<char> {
    renamed(input, default_output_name(input, windows), windows)
}

/// `film.mkv` becomes `film-stereo.mkv`, so a render never lands on its input.
pub fn default_output_for(input: &str, windows: bool) -> (r: String)
    ensures
        r@ == default_output(input@, windows),
{
    let stem = match file_stem(input, windows) {
        Some(stem) => stem,
        None => "output".to_owned(),
    };
    let ext = match extension(input, windows) {
        Some(ext) => ext,
        None => "mkv".to_owned(),
    };
    let name = stem.concat("-stereo.").concat(ext.as_str());
    proof {
        lemma_default_name_is_plain(input@, windows);
    }
    with_file_name(input, name.as_str(), windows)
}

/// A film's default output is a file of another name, so a render never lands on
/// its input. The new path ends in that name, unless on Windows it has become part of
/// the path's prefix.
pub proof fn law_the_default_output_is_never_the_input(input: Seq<char>, windows: bool)
    ensures
        ({
            let (name, out) = (default_output_name(input, windows), default_output(input, windows));
            &&& prefix_spares(out, name, windows) ==> name_of(out, windows) == Some(name)
            &&& !windows ==> prefix_spares(out, name, windows)
            &&& name_of(input, windows) != Some(name)
            &&& out != input
        }),
{
    reveal_strlit("-stereo.");
    reveal_strlit("output");
    reveal_strlit("mkv");
    let name = default_output_name(input, windows);
    lemma_default_name_is_plain(input, windows);
    if let Some(own) = name_of(input, windows) {
        lemma_dot_in_range(own);
        assert(name.len() > own.len() + 2);
    } else {
        assert(name[1] == 'u');
    }
    if prefix_spares(default_output(input, windows), name, windows) {
        law_renaming_names_the_new_file(input, name, windows);
    }
    law_a_longer_name_is_another_file(input, name, windows);
}

/// The name of a default output is one that a file can have.
proof fn lemma_default_name_is_plain(input: Seq<char>, windows: bool)
    ensures
        plain_name(default_output_name(input, windows), windows),
{
    reveal_strlit("-stereo.");
    reveal_strlit("output");
    reveal_strlit("mkv");
    let name = default_output_name(input, windows);
    lemma_name_is_plain(input, windows);
    let stem = match stem_of(input, windows) {
        Some(stem) => stem,
        None => "output"@,
    };
    let ext = match extension_of(input, windows) {
        Some(ext) => ext,
        None => "mkv"@,
    };
    if let Some(own) = name_of(input, windows) {
        lemma_dot_in_range(own);
        assert(forall|k: int| 0 <= k < stem.len() ==> stem[k] == own[k]);
        if extension_of(input, windows) is Some {
            let at = dot_at(own) + 1;
            assert(forall|k: int| 0 <= k < ext.len() ==> ext[k] == own[at + k]);
        }
    }
    assert forall|i: int| 0 <= i < name.len() implies !separates(#[trigger] name[i], windows) by {
        if i < stem.len() {
            assert(name[i] == stem[i]);
        } else if i < stem.len() + 8 {
            assert(name[i] == "-stereo."@[i - stem.len()]);
        } else {
            assert(name[i] == ext[i - stem.len() - 8]);
        }
    }
    assert(name.len() >= 8);
}

/// The name of an anaglyph encoding.
pub fn format_name(f: AnaglyphFormat) -> (r: &'static str)
    ensures
        r@ == f.label_text(),
{
    f.label()
}

pub open spec fn format_hint_text(f: AnaglyphFormat) -> Seq<char> {
    match f {
        AnaglyphFormat::RedCyan => "The usual choice, and the glasses most people own."@,
        AnaglyphFormat::GreenMagenta => "Holds colour better than red/cyan and ghosts less on many screens."@,
        AnaglyphFormat::RedBlue => "The oldest arrangement. Poor colour, but very forgiving glasses."@,
        AnaglyphFormat::ColorCode => "Nearly all the colour in one eye; the other is dim and mostly supplies depth."@,
    }
}

/// Why someone might choose one anaglyph encoding over another.
pub fn output_format_hint(f: AnaglyphFormat) -> (r: &'static str)
    ensures
        r@ == format_hint_text(f),
{
    match f {
        AnaglyphFormat::RedCyan => "The usual choice, and the glasses most people own.",
        AnaglyphFormat::GreenMagenta => "Holds colour better than red/cyan and ghosts less on many screens.",
        AnaglyphFormat::RedBlue => "The oldest arrangement. Poor colour, but very forgiving glasses.",
        AnaglyphFormat::ColorCode => "Nearly all the colour in one eye; the other is dim and mostly supplies depth.",
    }
}

pub open spec fn transfer_text(t: TransferFunction) -> Seq<char> {
    match t {
        TransferFunction::Srgb => "sRGB"@,
        TransferFunction::Bt709 => "BT.709"@,
        TransferFunction::Linear => "Linear"@,
    }
}

/// The name of a transfer function.
pub fn transfer_name(t: TransferFunction) -> (r: &'static str)
    ensures
        r@ == transfer_text(t),
{
    match t {
        TransferFunction::Srgb => "sRGB",
        TransferFunction::Bt709 => "BT.709",
        TransferFunction::Linear => "Linear",
    }
}

pub open spec fn restore_text(r: ColourRestore) -> Seq<char> {
    match r {
        ColourRestore::Offset => "Offset (recommended)"@,
        ColourRestore::Scale => "Scale"@,
    }
}

/// The name of a way to put colour back.
pub fn restore_name(r: ColourRestore) -> (name: &'static str)
    ensures
        name@ == restore_text(r),
{
    match r {
        ColourRestore::Offset => "Offset (recommended)",
        ColourRestore::Scale => "Scale",
    }
}

pub open spec fn restore_hint_text(r: ColourRestore) -> Seq<char> {
    match r {
        ColourRestore::Offset => "Robust on real film. Never divides, so noisy shadows stay clean."@,
        ColourRestore::Scale => "Sharper colour on a clean source, but breaks dark areas into cyan speckle on grainy or heavily compressed film."@,
    }
}

/// Why someone might choose one way to put colour back over the other.
pub fn restore_hint(r: ColourRestore) -> (hint: &'static str)
    ensures
        hint@ == restore_hint_text(r),
{
    match r {
        ColourRestore::Offset => "Robust on real film. Never divides, so noisy shadows stay clean.",
        ColourRestore::Scale => "Sharper colour on a clean source, but breaks dark areas into cyan speckle on grainy or heavily compressed film.",
    }
}

pub open spec fn codec_text(c: VideoCodec) -> Seq<char> {
    match c {
        VideoCodec::H264VideoToolbox => "H.264 (hardware)"@,
        VideoCodec::HevcVideoToolbox => "HEVC (hardware)"@,
        VideoCodec::H264 => "H.264 (software)"@,
        VideoCodec::Hevc => "HEVC (software)"@,
        VideoCodec::ProRes => "ProRes HQ"@,
    }
}

/// The name of an encoder.
pub fn codec_name(c: VideoCodec) -> (r: &'static str)
    ensures
        r@ == codec_text(c),
{
    match c {
        VideoCodec::H264VideoToolbox => "H.264 (hardware)",
        VideoCodec::HevcVideoToolbox => "HEVC (hardware)",
        VideoCodec::H264 => "H.264 (software)",
        VideoCodec::Hevc => "HEVC (software)",
        VideoCodec::ProRes => "ProRes HQ",
    }
}

pub open spec fn eye_order_text(order: EyeOrder, stacked: bool) -> Seq<char> {
    match (order, stacked) {
        (EyeOrder::LeftFirst, false) => "Left eye on the left"@,
        (EyeOrder::RightFirst, false) => "Right eye on the left"@,
        (EyeOrder::LeftFirst, true) => "Left eye on top"@,
        (EyeOrder::RightFirst, true) => "Right eye on top"@,
    }
}

/// How the eye order reads for a given layout.
///
/// The setting is the same either way, which eye is written first, but "left eye
/// first" is meaningless when the two are stacked vertically.
pub fn eye_order_name(order: EyeOrder, stacked: bool) -> (r: &'static str)
    ensures
        r@ == eye_order_text(order, stacked),
{
    match (order, stacked) {
        (EyeOrder::LeftFirst, false) => "Left eye on the left",
        (EyeOrder::RightFirst, false) => "Right eye on the left",
        (EyeOrder::LeftFirst, true) => "Left eye on top",
        (EyeOrder::RightFirst, true) => "Right eye on top",
    }
}

/// The source-type choice as a flat list, since [`InputMode`] carries data the
/// list should not have to reconstruct on every repaint.
#[derive(Debug, Clone, Copy, PartialEq, Eq, Structural)]
pub enum SourceKind {
    Anaglyph,
    SideBySide,
    TopBottom,
    TwoFiles,
}

impl SourceKind {
    pub const ALL: [SourceKind; 4] = [
        SourceKind::Anaglyph,
        SourceKind::SideBySide,
        SourceKind::TopBottom,
        SourceKind::TwoFiles,
    ];

    /// The kind of an input.
    pub open spec fn kind(input: InputMode) -> SourceKind {
        match input {
            InputMode::Anaglyph => SourceKind::Anaglyph,
            InputMode::Packed { packing: StereoPacking::SideBySide, .. } => SourceKind::SideBySide,
            InputMode::Packed { packing: StereoPacking::TopBottom, .. } => SourceKind::TopBottom,
            InputMode::TwoFiles => SourceKind::TwoFiles,
        }
    }

    /// The kind of an input.
    pub fn of(input: InputMode) -> (r: Self)
        ensures
            r == SourceKind::kind(input),
    {
        match input {
            InputMode::Anaglyph => SourceKind::Anaglyph,
            InputMode::Packed { packing: StereoPacking::SideBySide, order: _, anamorphic: _ } => {
                SourceKind::SideBySide
            },
            InputMode::Packed { packing: StereoPacking::TopBottom, order: _, anamorphic: _ } => {
                SourceKind::TopBottom
            },
            InputMode::TwoFiles => SourceKind::TwoFiles,
        }
    }

    /// The input of a kind, with the usual order of the eyes.
    pub open spec fn input(self, anamorphic: bool) -> InputMode {
        match self {
            SourceKind::Anaglyph => InputMode::Anaglyph,
            SourceKind::SideBySide => InputMode::Packed {
                packing: StereoPacking::SideBySide,
                order: EyeOrder::LeftFirst,
                anamorphic,
            },
            SourceKind::TopBottom => InputMode::Packed {
                packing: StereoPacking::TopBottom,
                order: EyeOrder::LeftFirst,
                anamorphic,
            },
            SourceKind::TwoFiles => InputMode::TwoFiles,
        }
    }

    /// The input of a kind, with the usual order of the eyes.
    pub fn to_input(self, anamorphic: bool) -> (r: InputMode)
        ensures
            r == self.input(anamorphic),
    {
        match self {
            SourceKind::Anaglyph => InputMode::Anaglyph,
            SourceKind::SideBySide => InputMode::packed(StereoPacking::SideBySide, anamorphic),
            SourceKind::TopBottom => InputMode::packed(StereoPacking::TopBottom, anamorphic),
            SourceKind::TwoFiles => InputMode::TwoFiles,
        }
    }

    pub open spec fn label_text(self) -> Seq<char> {
        match self {
            SourceKind::Anaglyph => "An anaglyph"@,
            SourceKind::SideBySide => "A side-by-side pair"@,
            SourceKind::TopBottom => "A top-and-bottom pair"@,
            SourceKind::TwoFiles => "One eye, with the other in a second file"@,
        }
    }

    pub fn label(self) -> (r: &'static str)
        ensures
            r@ == self.label_text(),
    {
        match self {
            SourceKind::Anaglyph => "An anaglyph",
            SourceKind::SideBySide => "A side-by-side pair",
            SourceKind::TopBottom => "A top-and-bottom pair",
            SourceKind::TwoFiles => "One eye, with the other in a second file",
        }
    }

    pub open spec fn hint_text(self) -> Seq<char> {
        match self {
            SourceKind::Anaglyph => "Recover a full-colour stereo pair from red/cyan or green/magenta"@,
            SourceKind::SideBySide => "Already a stereo pair, two eyes across each frame"@,
            SourceKind::TopBottom => "Already a stereo pair, two eyes down each frame"@,
            SourceKind::TwoFiles => "This file is the left eye; choose the right eye separately"@,
        }
    }

    pub fn hint(self) -> (r: &'static str)
        ensures
            r@ == self.hint_text(),
    {
        match self {
            SourceKind::Anaglyph => "Recover a full-colour stereo pair from red/cyan or green/magenta",
            SourceKind::SideBySide => "Already a stereo pair, two eyes across each frame",
            SourceKind::TopBottom => "Already a stereo pair, two eyes down each frame",
            SourceKind::TwoFiles => "This file is the left eye; choose the right eye separately",
        }
    }
}

/// The list and the setting agree: a kind makes an input of that kind, and an
/// input with the usual order of the eyes is made again from its kind.
pub proof fn law_source_kinds_round_trip(kind: SourceKind, anamorphic: bool, input: InputMode)
    ensures
        SourceKind::kind(kind.input(anamorphic)) == kind,
        (input matches InputMode::Packed { order, .. } ==> order == EyeOrder::LeftFirst) ==> input
            == SourceKind::kind(input).input(
            input matches InputMode::Packed { anamorphic, .. } && anamorphic,
        ),
{
}

/// A plain-language description of what the source is.
pub open spec fn source_text(params: ConvertParams) -> Seq<char> {
    match params.input {
        InputMode::Anaglyph => "Anaglyph ("@ + params.input_format.label_text() + ")"@,
        InputMode::Packed { packing, anamorphic, .. } => if anamorphic {
            packing.label_text() + ", anamorphic"@
        } else {
            packing.label_text()
        },
        InputMode::TwoFiles => "Left eye of a two-file pair"@,
    }
}

/// A plain-language description of what the source is, for the header.
pub fn describe_source(params: &ConvertParams) -> (text: String)
    ensures
        text@ == source_text(*params),
{
    match params.input {
        InputMode::Anaglyph => "Anaglyph (".to_owned().concat(format_name(params.input_format)).concat(
            ")",
        ),
        InputMode::Packed { packing, order: _, anamorphic } => {
            let label = packing.label().to_owned();
            if anamorphic {
                label.concat(", anamorphic")
            } else {
                label
            }
        },
        InputMode::TwoFiles => "Left eye of a two-file pair".to_owned(),
    }
}

/// What each place of a file is called.
pub proof fn law_a_role_reads_so(role: Role, x: &'static str)
    requires
        call_ensures(Role::label, (role,), x),
    ensures
        role == Role::Anaglyph ==> x@ == "Source"@,
        role == Role::Secondary ==> x@ == "2D source"@,
        role == Role::RightEye ==> x@ == "Right eye file"@,
{
}

/// What each use of a 2D release is called.
pub proof fn law_a_use_of_a_2d_source_reads_so(role: SecondaryRole, x: &'static str)
    requires
        call_ensures(SecondaryRole::label, (role,), x),
    ensures
        role == SecondaryRole::ColourOnly ==> x@ == "Colour reference only"@,
        role == SecondaryRole::IsLeftEye ==> x@ == "This is the left eye"@,
        role == SecondaryRole::IsRightEye ==> x@ == "This is the right eye"@,
{
}

/// How each use of a 2D release is explained.
pub proof fn law_a_use_of_a_2d_source_is_explained_so(role: SecondaryRole, x: &'static str)
    requires
        call_ensures(SecondaryRole::hint, (role,), x),
    ensures
        role == SecondaryRole::ColourOnly ==> x@ == "Both eyes are still recovered from the anaglyph. This file only                  supplies colour, which is what removes the red/cyan cast."@,
        role == SecondaryRole::IsLeftEye ==> x@ == "The left eye is this file, untouched and perfect. Only the right                  eye is reconstructed, using this file for its colour."@,
        role == SecondaryRole::IsRightEye ==> x@ == "The right eye is this file, untouched and perfect. Only the left                  eye is reconstructed, using this file for its colour."@,
{
}

/// How each encoding is explained.
pub proof fn law_an_encoding_is_explained_so(format: AnaglyphFormat, x: &'static str)
    requires
        call_ensures(output_format_hint, (format,), x),
    ensures
        format == AnaglyphFormat::RedCyan ==> x@ == "The usual choice, and the glasses most people own."@,
        format == AnaglyphFormat::GreenMagenta ==> x@ == "Holds colour better than red/cyan and ghosts less on many screens."@,
        format == AnaglyphFormat::RedBlue ==> x@ == "The oldest arrangement. Poor colour, but very forgiving glasses."@,
        format == AnaglyphFormat::ColorCode ==> x@ == "Nearly all the colour in one eye; the other is dim and mostly supplies depth."@,
{
}

/// What each transfer function is called.
pub proof fn law_a_transfer_function_reads_so(tf: TransferFunction, x: &'static str)
    requires
        call_ensures(transfer_name, (tf,), x),
    ensures
        tf == TransferFunction::Srgb ==> x@ == "sRGB"@,
        tf == TransferFunction::Bt709 ==> x@ == "BT.709"@,
        tf == TransferFunction::Linear ==> x@ == "Linear"@,
{
}

/// What each way to put colour back is called.
pub proof fn law_a_way_to_restore_reads_so(mode: ColourRestore, x: &'static str)
    requires
        call_ensures(restore_name, (mode,), x),
    ensures
        mode == ColourRestore::Offset ==> x@ == "Offset (recommended)"@,
        mode == ColourRestore::Scale ==> x@ == "Scale"@,
{
}

/// How each way to put colour back is explained.
pub proof fn law_a_way_to_restore_is_explained_so(mode: ColourRestore, x: &'static str)
    requires
        call_ensures(restore_hint, (mode,), x),
    ensures
        mode == ColourRestore::Offset ==> x@ == "Robust on real film. Never divides, so noisy shadows stay clean."@,
        mode == ColourRestore::Scale ==> x@ == "Sharper colour on a clean source, but breaks dark areas into cyan speckle on grainy or heavily compressed film."@,
{
}

/// What each encoder is called.
pub proof fn law_an_encoder_reads_so(codec: VideoCodec, x: &'static str)
    requires
        call_ensures(codec_name, (codec,), x),
    ensures
        codec == VideoCodec::H264VideoToolbox ==> x@ == "H.264 (hardware)"@,
        codec == VideoCodec::HevcVideoToolbox ==> x@ == "HEVC (hardware)"@,
        codec == VideoCodec::H264 ==> x@ == "H.264 (software)"@,
        codec == VideoCodec::Hevc ==> x@ == "HEVC (software)"@,
        codec == VideoCodec::ProRes ==> x@ == "ProRes HQ"@,
{
}

/// What each kind of source is called.
pub proof fn law_a_source_kind_reads_so(kind: SourceKind, x: &'static str)
    requires
        call_ensures(SourceKind::label, (kind,), x),
    ensures
        kind == SourceKind::Anaglyph ==> x@ == "An anaglyph"@,
        kind == SourceKind::SideBySide ==> x@ == "A side-by-side pair"@,
        kind == SourceKind::TopBottom ==> x@ == "A top-and-bottom pair"@,
        kind == SourceKind::TwoFiles ==> x@ == "One eye, with the other in a second file"@,
{
}

/// How each kind of source is explained.
pub proof fn law_a_source_kind_is_explained_so(kind: SourceKind, x: &'static str)
    requires
        call_ensures(SourceKind::hint, (kind,), x),
    ensures
        kind == SourceKind::Anaglyph ==> x@ == "Recover a full-colour stereo pair from red/cyan or green/magenta"@,
        kind == SourceKind::SideBySide ==> x@ == "Already a stereo pair, two eyes across each frame"@,
        kind == SourceKind::TopBottom ==> x@ == "Already a stereo pair, two eyes down each frame"@,
        kind == SourceKind::TwoFiles ==> x@ == "This file is the left eye; choose the right eye separately"@,
{
}

/// The eye that comes first is on the left or on top, and is named.
pub proof fn law_the_first_eye_is_named(order: EyeOrder, stacked: bool, x: &'static str)
    requires
        call_ensures(eye_order_name, (order, stacked), x),
    ensures
        order == EyeOrder::LeftFirst && !stacked ==> x@ == "Left eye on the left"@,
        order == EyeOrder::RightFirst && !stacked ==> x@ == "Right eye on the left"@,
        order == EyeOrder::LeftFirst && stacked ==> x@ == "Left eye on top"@,
        order == EyeOrder::RightFirst && stacked ==> x@ == "Right eye on top"@,
{
}

/// The first file that is dropped is the film, any other its 2D release.
pub proof fn law_the_first_drop_is_the_film(has_source: bool, r: DropTarget)
    requires
        call_ensures(role_for_drop, (has_source,), r),
    ensures
        r == DropTarget::Source <==> !has_source,
        r == DropTarget::Secondary <==> has_source,
{
}

/// Only the film itself needs no lining up. A 2D release stands in for the eye that it is
/// said to be, and for none where it only lends its colour.
pub proof fn law_a_2d_release_is_the_eye_it_is_said_to_be(
    place: Role,
    aligned: bool,
    role: SecondaryRole,
    eye: MonoEye,
    given: bool,
)
    requires
        call_ensures(Role::is_secondary, (place,), aligned),
        call_ensures(SecondaryRole::mono_eye, (role,), eye),
        call_ensures(SecondaryRole::supplies_an_eye, (role,), given),
    ensures
        aligned <==> place == Role::Secondary || place == Role::RightEye,
        role == SecondaryRole::IsLeftEye <==> eye == MonoEye::Left,
        role == SecondaryRole::IsRightEye <==> eye == MonoEye::Right,
        role == SecondaryRole::ColourOnly <==> eye == MonoEye::Neither,
        given <==> eye != MonoEye::Neither,
{
}

/// A kind of source says what the film holds, a packed pair with its left eye first and
/// squeezed where that is said; and what a film holds is of that kind.
pub proof fn law_a_source_kind_says_what_the_film_holds(
    kind: SourceKind,
    anamorphic: bool,
    input: InputMode,
    back: SourceKind,
)
    requires
        call_ensures(SourceKind::to_input, (kind, anamorphic), input),
        call_ensures(SourceKind::of, (input,), back),
    ensures
        back == kind,
        kind == SourceKind::Anaglyph ==> input == InputMode::Anaglyph,
        kind == SourceKind::TwoFiles ==> input == InputMode::TwoFiles,
        kind == SourceKind::SideBySide ==> input == (InputMode::Packed {
            packing: StereoPacking::SideBySide,
            order: EyeOrder::LeftFirst,
            anamorphic,
        }),
        kind == SourceKind::TopBottom ==> input == (InputMode::Packed {
            packing: StereoPacking::TopBottom,
            order: EyeOrder::LeftFirst,
            anamorphic,
        }),
{
}

/// The header says what the source is: an anaglyph and of which encoding, a packed pair
/// and whether it is squeezed, or one of two files.
pub proof fn law_the_header_says_what_the_source_is(params: &ConvertParams, text: String)
    requires
        call_ensures(describe_source, (params,), text),
    ensures
        params.input is Anaglyph ==> text@ == "Anaglyph ("@ + params.input_format.label_text() + ")"@,
        params.input is TwoFiles ==> text@ == "Left eye of a two-file pair"@,
        params.input matches InputMode::Packed { packing, anamorphic, .. } ==> anamorphic ==> text@
            == packing.label_text() + ", anamorphic"@,
        params.input matches InputMode::Packed { packing, anamorphic, .. } ==> !anamorphic ==> text@
            == packing.label_text(),
{
}

/// Capitals of the Latin alphabet become the small letter of the same place in it, and
/// nothing else changes.
pub proof fn law_capitals_become_small(text: Seq<char>, i: int)
    requires
        0 <= i < text.len(),
    ensures
        lowered(text).len() == text.len(),
        'A' <= text[i] <= 'Z' ==> 'a' <= lowered(text)[i] <= 'z' && lowered(text)[i] as int
            - 'a' as int == text[i] as int - 'A' as int,
        !('A' <= text[i] <= 'Z') ==> lowered(text)[i] == text[i],
{
}

/// What looks like a video is what has the extension of one, in capitals or not.
pub proof fn law_a_video_is_known_by_its_extension(path: &str, windows: bool, ext: Option<String>, r: bool)
    requires
        call_ensures(looks_like_video, (path, windows), r),
        call_ensures(extension, (path, windows), ext),
    ensures
        ext is None ==> !r,
        ext matches Some(e) ==> (r <==> {
            let small = lowered(e@);
            ||| small == "mkv"@
            ||| small == "mp4"@
            ||| small == "m4v"@
            ||| small == "mov"@
            ||| small == "avi"@
            ||| small == "mpg"@
            ||| small == "mpeg"@
            ||| small == "wmv"@
            ||| small == "ts"@
            ||| small == "m2ts"@
            ||| small == "vob"@
            ||| small == "webm"@
        }),
{
    let all = known_extensions();
    assert(all[0] == "mkv"@ && all[1] == "mp4"@ && all[2] == "m4v"@ && all[3] == "mov"@);
    assert(all[4] == "avi"@ && all[5] == "mpg"@ && all[6] == "mpeg"@ && all[7] == "wmv"@);
    assert(all[8] == "ts"@ && all[9] == "m2ts"@ && all[10] == "vob"@ && all[11] == "webm"@);
}

/// The default output is the film's name with `-stereo` in front of its extension, in the
/// film's directory; a film without an extension is written as `mkv`.
pub proof fn law_the_default_output_is_beside_the_film(
    input: &str,
    windows: bool,
    stem: Option<String>,
    ext: Option<String>,
    r: String,
)
    requires
        call_ensures(default_output_for, (input, windows), r),
        call_ensures(file_stem, (input, windows), stem),
        call_ensures(extension, (input, windows), ext),
    ensures
        stem matches Some(s) ==> (ext matches Some(e) ==> r@ == renamed(
            input@,
            s@ + "-stereo."@ + e@,
            windows,
        )),
        stem matches Some(s) ==> ext is None ==> r@ == renamed(
            input@,
            s@ + "-stereo."@ + "mkv"@,
            windows,
        ),
        stem is None ==> r@ == renamed(input@, "output"@ + "-stereo."@ + "mkv"@, windows),
{
}

/// Every use of a 2D release is offered, colour alone first.
pub proof fn law_every_role_is_offered(role: SecondaryRole)
    ensures
        SecondaryRole::ALL@[0] == SecondaryRole::ColourOnly,
        SecondaryRole::ALL@[1] == SecondaryRole::IsLeftEye,
        SecondaryRole::ALL@[2] == SecondaryRole::IsRightEye,
        SecondaryRole::ALL@.len() == 3,
        SecondaryRole::ALL@.contains(role),
{
    let all = SecondaryRole::ALL@;
    assert(all[0] == SecondaryRole::ColourOnly);
    assert(all[1] == SecondaryRole::IsLeftEye);
    assert(all[2] == SecondaryRole::IsRightEye);
}

/// Every kind of source is offered, an anaglyph first.
pub proof fn law_every_source_kind_is_offered(kind: SourceKind)
    ensures
        SourceKind::ALL@[0] == SourceKind::Anaglyph,
        SourceKind::ALL@[1] == SourceKind::SideBySide,
        SourceKind::ALL@[2] == SourceKind::TopBottom,
        SourceKind::ALL@[3] == SourceKind::TwoFiles,
        SourceKind::ALL@.len() == 4,
        SourceKind::ALL@.contains(kind),
{
    let all = SourceKind::ALL@;
    assert(all[0] == SourceKind::Anaglyph);
    assert(all[1] == SourceKind::SideBySide);
    assert(all[2] == SourceKind::TopBottom);
    assert(all[3] == SourceKind::TwoFiles);
}

} // verus!
