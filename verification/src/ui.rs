//! What the display derives from the engine's values: the colour of a track,
//! the height of a bar, the split of the screen around a popup.
use std::collections::hash_map::DefaultHasher;
use std::hash::Hasher;
use vstd::prelude::*;
use vstd::std_specs::hash::DefaultHasherAdditionalSpecFns;
use vstd::string::*;
use vstd::utf8::*;

verus! {

/// Number of indexed colours that tracks are spread over.
pub const TRACK_COLORS: u64 = 15;

/// Height of a bar without magnitude.
pub const BAR_BASE: u64 = 10;

/// A colour of the terminal.
#[derive(Debug, Clone, Copy, PartialEq, Eq, Structural)]
pub enum UiColor {
    /// The default colour.
    Yellow,
    /// A colour of the terminal's palette, by its index.
    Indexed(u8),
}

/// The colour for a track whose name hashes to `name_hash`: the palette
/// colour at the hash's remainder by `TRACK_COLORS`, counted from one; the
/// default colour if `use_default` is set.
pub open spec fn ui_color(name_hash: u64, use_default: bool) -> UiColor {
    if use_default {
        UiColor::Yellow
    } else {
        UiColor::Indexed((name_hash % TRACK_COLORS + 1) as u8)
    }
}

/// The colour of the display for a track whose name hashes to `name_hash`.
pub fn color_for_hash(name_hash: u64, use_default: bool) -> (color: UiColor)
    ensures
        color == ui_color(name_hash, use_default),
        match color {
            UiColor::Yellow => use_default,
            UiColor::Indexed(i) => !use_default && 1 <= i <= 15,
        },
{
    if !use_default {
        let index: u64 = name_hash % TRACK_COLORS + 1;
        UiColor::Indexed(index as u8)
    } else {
        UiColor::Yellow
    }
}

/// The hash of a name: what std's `DefaultHasher`, fresh from `new`, gives
/// after the bytes of the name were written to it in one piece.
pub open spec fn name_hash(name: Seq<char>) -> u64 {
    DefaultHasher::spec_finish(seq![encode_utf8(name)])
}

/// Hashes a name with a fresh `DefaultHasher`.
pub fn hash_name(name: &str) -> (hash: u64)
    ensures
        hash == name_hash(name@),
{
    let mut hasher = DefaultHasher::new();
    hasher.write(name.as_bytes());
    assert(hasher@ =~= seq![encode_utf8(name@)]);
    hasher.finish()
}

/// The colour of the display for a song: the default colour if
/// `use_default` is set, else the palette colour that the hash of the
/// song's name picks. Equal names get equal colours.
pub fn get_ui_color(song_name: &str, use_default: bool) -> (color: UiColor)
    ensures
        color == ui_color(name_hash(song_name@), use_default),
        match color {
            UiColor::Yellow => use_default,
            UiColor::Indexed(i) => !use_default && 1 <= i <= 15,
        },
{
    if use_default {
        UiColor::Yellow
    } else {
        let hash: u64 = hash_name(song_name);
        color_for_hash(hash, false)
    }
}

/// The height of the bar for a magnitude in millionths: its thousandths
/// above the base height.
pub fn bar_height(magnitude: u64) -> (height: u64)
    ensures
        height == magnitude / 1000 + BAR_BASE,
{
    magnitude / 1000 + BAR_BASE
}

/// The heights of all bars, in their order.
pub fn bar_heights(bars: &Vec<u64>) -> (heights: Vec<u64>)
    ensures
        heights.len() == bars.len(),
        forall|i: int| 0 <= i < bars.len() ==> heights[i] == bars[i] / 1000 + BAR_BASE,
{
    let mut heights: Vec<u64> = Vec::new();
    let mut i: usize = 0;
    while i < bars.len()
        invariant
            i <= bars.len(),
            heights.len() == i,
            forall|j: int| 0 <= j < i ==> heights[j] == bars[j] / 1000 + BAR_BASE,
        decreases bars.len() - i,
    {
        heights.push(bar_height(bars[i]));
        i += 1;
    }
    heights
}

/// The three parts, in percent, into which one side of the screen is split
/// so that a popup of `percent` stands in the middle: a margin, the popup,
/// and the same margin again.
pub fn centered_shares(percent: u16) -> (shares: (u16, u16, u16))
    requires
        percent <= 100,
    ensures
        shares.0 == (100 - percent) / 2,
        shares.1 == percent,
        shares.2 == (100 - percent) / 2,
        shares.0 + shares.1 + shares.2 <= 100,
{
    let margin: u16 = (100 - percent) / 2;
    (margin, percent, margin)
}

} // verus!
