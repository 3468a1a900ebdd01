//! The numeric-code domains of the enum-valued attributes.
//!
//! Each enum-valued attribute (quality, wear, paint, killstreak tier, sheen,
//! killstreaker) draws its values from a finite set of `u32` codes that the
//! `tf2_enum` crate defines. The codec carries the codes themselves; which
//! codes are valid is decided by `tf2_enum`, reached only through the trusted
//! functions below. Each validity predicate is an uninterpreted name: the
//! library states nothing about which codes belong to a domain beyond what
//! the trusted functions return at run time.

use vstd::prelude::*;
use tf2_enum::TryFromPrimitive;

verus! {

/// Whether `code` names a variant of `tf2_enum::Quality`.
pub uninterp spec fn quality_code_ok(code: u32) -> bool;

/// Whether `code` names a variant of `tf2_enum::Wear`.
pub uninterp spec fn wear_code_ok(code: u32) -> bool;

/// Whether `code` names a variant of `tf2_enum::Paint`.
pub uninterp spec fn paint_code_ok(code: u32) -> bool;

/// Whether `code` names a variant of `tf2_enum::KillstreakTier`.
pub uninterp spec fn killstreak_tier_code_ok(code: u32) -> bool;

/// Whether `code` names a variant of `tf2_enum::Sheen`.
pub uninterp spec fn sheen_code_ok(code: u32) -> bool;

/// Whether `code` names a variant of `tf2_enum::Killstreaker`.
pub uninterp spec fn killstreaker_code_ok(code: u32) -> bool;

/// Relies on `tf2_enum::Quality::try_from_primitive`: it succeeds exactly on
/// the codes that name a variant.
#[verifier::external_body]
pub(crate) fn check_quality_code(code: u32) -> (r: bool)
    ensures
        r == quality_code_ok(code),
{
    tf2_enum::Quality::try_from_primitive(code).is_ok()
}

/// Relies on `tf2_enum::Wear::try_from_primitive`: it succeeds exactly on
/// the codes that name a variant.
#[verifier::external_body]
pub(crate) fn check_wear_code(code: u32) -> (r: bool)
    ensures
        r == wear_code_ok(code),
{
    tf2_enum::Wear::try_from_primitive(code).is_ok()
}

/// Relies on `tf2_enum::Paint::try_from_primitive`: it succeeds exactly on
/// the codes that name a variant.
#[verifier::external_body]
pub(crate) fn check_paint_code(code: u32) -> (r: bool)
    ensures
        r == paint_code_ok(code),
{
    tf2_enum::Paint::try_from_primitive(code).is_ok()
}

/// Relies on `tf2_enum::KillstreakTier::try_from_primitive`: it succeeds
/// exactly on the codes that name a variant.
#[verifier::external_body]
pub(crate) fn check_killstreak_tier_code(code: u32) -> (r: bool)
    ensures
        r == killstreak_tier_code_ok(code),
{
    tf2_enum::KillstreakTier::try_from_primitive(code).is_ok()
}

/// Relies on `tf2_enum::Sheen::try_from_primitive`: it succeeds exactly on
/// the codes that name a variant.
#[verifier::external_body]
pub(crate) fn check_sheen_code(code: u32) -> (r: bool)
    ensures
        r == sheen_code_ok(code),
{
    tf2_enum::Sheen::try_from_primitive(code).is_ok()
}

/// Relies on `tf2_enum::Killstreaker::try_from_primitive`: it succeeds
/// exactly on the codes that name a variant.
#[verifier::external_body]
pub(crate) fn check_killstreaker_code(code: u32) -> (r: bool)
    ensures
        r == killstreaker_code_ok(code),
{
    tf2_enum::Killstreaker::try_from_primitive(code).is_ok()
}

/// Relies on `tf2_enum::Quality::Normal` being the variant with code 0, so
/// that `u32::from` returns 0 on it and `try_from_primitive` accepts 0.
/// This is the quality of a default-constructed SKU.
#[verifier::external_body]
pub(crate) fn quality_normal_code() -> (r: u32)
    ensures
        r == 0,
        quality_code_ok(r),
{
    u32::from(tf2_enum::Quality::Normal)
}

/// Relies on `tf2_enum::Quality::Rarity2` being the variant with code 2, so
/// that `u32::from` returns 2 on it and `try_from_primitive` accepts 2.
/// This is the sentinel quality that lossy decoding substitutes when the
/// quality token is absent or unparseable.
#[verifier::external_body]
pub(crate) fn quality_rarity2_code() -> (r: u32)
    ensures
        r == 2,
        quality_code_ok(r),
{
    u32::from(tf2_enum::Quality::Rarity2)
}

} // verus!
