//! SKU parser for Team Fortress 2 items.
//!
//! A SKU is a semicolon-delimited string identifier for an item's full
//! attribute set: `"<defindex>;<quality>"` followed by optional, unordered,
//! self-describing attribute tokens such as `u703` (particle effect) or
//! `kt-3` (killstreak tier). This crate holds the bidirectional codec:
//! the canonical formatter, the tolerant tokenizer and per-token dispatcher,
//! and the two decode policies (strict and lossy), together with proofs of
//! the codec's laws, chiefly that decoding a canonical string and formatting
//! the result reproduces that string.

use vstd::prelude::*;

mod codes;
mod digits;
mod error;
mod laws;
mod parse;
mod sku;
mod tokens;

pub use codes::{
    killstreak_tier_code_ok, killstreaker_code_ok, paint_code_ok, quality_code_ok, sheen_code_ok,
    wear_code_ok,
};
pub use error::{message_spec, IntErrorKind, ParseError, ParseErrorModel};
pub use laws::{
    lemma_decode_strict_wf, lemma_format_deterministic, lemma_round_trip,
    lemma_stray_text_sets_no_particle, lemma_unknown_token_ignored,
};
pub use parse::{
    apply_all, apply_element_spec, decode_lossy_spec, decode_strict_spec, elem_name, elem_value,
    known_name, parse_enum_u32, parse_sku_element, parse_u32, Domain,
};
pub use sku::{format_spec, sku_tokens, SKUString, SKU};
pub use tokens::tokenize_spec;

verus! {

} // verus!
