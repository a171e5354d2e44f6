//! The mode in which a match was played.

use crate::bundle::Bundle;
use crate::text::{chars_of, opt_text, pieces_of, split_chars, string_of};
use vstd::prelude::*;

verus! {

/// The mode that the name of a layer tells: its second part. A layer is named
/// like `Manicouagan_Seed_v2_CL`.
pub open spec fn mode_in_layer(layer: Seq<char>) -> Option<Seq<char>> {
    let parts = pieces_of(layer, seq!['_']);
    if parts.len() > 1 {
        Some(parts[1])
    } else {
        None
    }
}

/// The mode of a match: the one that the game state tells, or else the one in
/// the name of the layer.
pub open spec fn mode_of(bundle: Bundle) -> Option<Seq<char>> {
    match bundle.game_state.game_mode {
        Some(mode) => Some(mode@),
        None => match bundle.replay.layer_name {
            Some(layer) => mode_in_layer(layer@),
            None => None,
        },
    }
}

/// The mode that the name of a layer tells.
pub fn layer_mode(layer: &str) -> (mode: Option<String>)
    ensures
        opt_text(mode) == mode_in_layer(layer@),
{
    let separators: Vec<char> = vec!['_'];
    assert(separators@ =~= seq!['_']);
    let parts = split_chars(&chars_of(layer), &separators);
    assert(pieces_of(layer@, seq!['_']).len() == parts@.len());
    if parts.len() > 1 {
        let mode = string_of(&parts[1], 0, parts[1].len());
        assert(mode@ =~= parts@[1]@);
        Some(mode)
    } else {
        None
    }
}

/// The mode of a match.
pub fn game_mode(bundle: &Bundle) -> (mode: Option<String>)
    ensures
        opt_text(mode) == mode_of(*bundle),
{
    match &bundle.game_state.game_mode {
        Some(mode) => Some(mode.clone()),
        None => match &bundle.replay.layer_name {
            Some(layer) => layer_mode(layer),
            None => None,
        },
    }
}

} // verus!
