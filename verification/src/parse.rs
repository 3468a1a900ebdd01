//! Decoding: the per-token element dispatcher and the two decode policies.
//!
//! A token is split into a name and a value by removing the maximal trailing
//! run of ASCII digits; the name selects the attribute and the value is
//! parsed for it. Unknown names are silently ignored. Strict decoding fails
//! on the first malformed mandatory or recognized-but-invalid field; lossy
//! decoding never fails and substitutes sentinel defaults instead.

use vstd::prelude::*;
use vstd::string::StrSliceExecFns;
use crate::codes::{
    check_killstreak_tier_code, check_killstreaker_code, check_paint_code, check_quality_code,
    check_sheen_code, check_wear_code, killstreak_tier_code_ok, killstreaker_code_ok,
    paint_code_ok, quality_code_ok, quality_rarity2_code, sheen_code_ok, wear_code_ok,
};
use crate::digits::{
    digit_suffix_len, is_ascii_digit_char, is_digit_char, lemma_digit_suffix, parse_i32_spec,
    parse_i32_str, parse_u32_spec, parse_u32_str,
};
use crate::error::{IntErrorKind, ParseError, ParseErrorModel};
use crate::sku::{
    name_australium, name_craft_number, name_crate_number, name_festive, name_killstreak_tier,
    name_killstreaker, name_output_defindex, name_output_quality, name_paint, name_particle,
    name_sheen, name_skin, name_strange, name_target_defindex, name_uncraftable, name_wear, SKU,
};
use crate::tokens::{tokenize, tokenize_spec};

verus! {

/// An enum-valued attribute's domain: which finite set of codes its values
/// are drawn from.
#[derive(Debug, Clone, Copy, PartialEq, Eq, Structural)]
pub enum Domain {
    Quality,
    Wear,
    Paint,
    KillstreakTier,
    Sheen,
    Killstreaker,
}

/// Whether `code` is valid in the domain `d`.
pub open spec fn domain_code_ok(d: Domain, code: u32) -> bool {
    match d {
        Domain::Quality => quality_code_ok(code),
        Domain::Wear => wear_code_ok(code),
        Domain::Paint => paint_code_ok(code),
        Domain::KillstreakTier => killstreak_tier_code_ok(code),
        Domain::Sheen => sheen_code_ok(code),
        Domain::Killstreaker => killstreaker_code_ok(code),
    }
}

/// Asks the domain's enum whether it recognizes `code`.
pub fn check_code(d: Domain, code: u32) -> (b: bool)
    ensures
        b == domain_code_ok(d, code),
{
    match d {
        Domain::Quality => check_quality_code(code),
        Domain::Wear => check_wear_code(code),
        Domain::Paint => check_paint_code(code),
        Domain::KillstreakTier => check_killstreak_tier_code(code),
        Domain::Sheen => check_sheen_code(code),
        Domain::Killstreaker => check_killstreaker_code(code),
    }
}

/// What parsing a plain unsigned value returns: the value, or an
/// integer-parse error tagged with the field name.
pub open spec fn parse_plain_u32_spec(key: Seq<char>, value: Seq<char>) -> Result<
    u32,
    ParseErrorModel,
> {
    match parse_u32_spec(value) {
        Ok(v) => Ok(v),
        Err(k) => Err(ParseErrorModel::ParseInt { key, error: k }),
    }
}

/// What parsing an enum-coded value returns: the code if the domain
/// recognizes it, an integer-parse error, or an invalid-value error carrying
/// the rejected code.
pub open spec fn parse_enum_u32_spec(key: Seq<char>, d: Domain, value: Seq<char>) -> Result<
    u32,
    ParseErrorModel,
> {
    match parse_u32_spec(value) {
        Err(k) => Err(ParseErrorModel::ParseInt { key, error: k }),
        Ok(v) => if domain_code_ok(d, v) {
            Ok(v)
        } else {
            Err(ParseErrorModel::InvalidValue { key, number: v })
        },
    }
}

/// Parses `value` as a plain unsigned integer, tagging any failure with
/// `key`.
pub fn parse_u32(key: &'static str, value: &str) -> (r: Result<u32, ParseError>)
    ensures
        ({
            let p = parse_plain_u32_spec(key@, value@);
            &&& (p matches Ok(v) ==> r matches Ok(v2) && v2 == v)
            &&& (p matches Err(e) ==> r matches Err(e2) && e2@ == e)
        }),
{
    match parse_u32_str(value) {
        Ok(v) => Ok(v),
        Err(k) => Err(ParseError::ParseInt { key, error: k }),
    }
}

/// Parses `value` as a code of the domain `d`, tagging any failure with
/// `key`: an unparseable integer gives an integer-parse error, a parseable
/// but unrecognized code an invalid-value error.
pub fn parse_enum_u32(key: &'static str, d: Domain, value: &str) -> (r: Result<u32, ParseError>)
    ensures
        ({
            let p = parse_enum_u32_spec(key@, d, value@);
            &&& (p matches Ok(v) ==> r matches Ok(v2) && v2 == v)
            &&& (p matches Err(e) ==> r matches Err(e2) && e2@ == e)
        }),
{
    match parse_u32_str(value) {
        Ok(v) => {
            if check_code(d, v) {
                Ok(v)
            } else {
                Err(ParseError::InvalidValue { key, number: v })
            }
        },
        Err(k) => Err(ParseError::ParseInt { key, error: k }),
    }
}

/// The name of a token: everything before the maximal trailing digit run.
pub open spec fn elem_name(t: Seq<char>) -> Seq<char> {
    t.take(t.len() - digit_suffix_len(t))
}

/// The value of a token: the maximal trailing digit run, possibly empty.
pub open spec fn elem_value(t: Seq<char>) -> Seq<char> {
    t.skip(t.len() - digit_suffix_len(t))
}

/// The set of attribute names the dispatcher recognizes; every other name
/// is silently ignored.
pub open spec fn known_name(n: Seq<char>) -> bool {
    ||| n == name_particle()
    ||| n == name_wear()
    ||| n == name_craft_number()
    ||| n == name_crate_number()
    ||| n == name_paint()
    ||| n == name_skin()
    ||| n == name_killstreak_tier()
    ||| n == name_target_defindex()
    ||| n == name_output_defindex()
    ||| n == name_output_quality()
    ||| n == name_sheen()
    ||| n == name_killstreaker()
    ||| n == name_uncraftable()
    ||| n == name_australium()
    ||| n == name_strange()
    ||| n == name_festive()
}

/// What dispatching one raw token does to a record: the token's name picks
/// an attribute (unknown names change nothing), and its value is parsed for
/// that attribute, any failure being tagged with the attribute's field name.
pub open spec fn apply_element_spec(r: SKU, t: Seq<char>) -> Result<SKU, ParseErrorModel> {
    let name = elem_name(t);
    let value = elem_value(t);
    if name == name_particle() {
        match parse_plain_u32_spec("particle"@, value) {
            Ok(v) => Ok(SKU { particle: Some(v), ..r }),
            Err(e) => Err(e),
        }
    } else if name == name_wear() {
        match parse_enum_u32_spec("wear"@, Domain::Wear, value) {
            Ok(v) => Ok(SKU { wear: Some(v), ..r }),
            Err(e) => Err(e),
        }
    } else if name == name_craft_number() {
        match parse_plain_u32_spec("craft number"@, value) {
            Ok(v) => Ok(SKU { craft_number: Some(v), ..r }),
            Err(e) => Err(e),
        }
    } else if name == name_crate_number() {
        match parse_plain_u32_spec("crate number"@, value) {
            Ok(v) => Ok(SKU { crate_number: Some(v), ..r }),
            Err(e) => Err(e),
        }
    } else if name == name_paint() {
        match parse_enum_u32_spec("paint"@, Domain::Paint, value) {
            Ok(v) => Ok(SKU { paint: Some(v), ..r }),
            Err(e) => Err(e),
        }
    } else if name == name_skin() {
        match parse_plain_u32_spec("skin"@, value) {
            Ok(v) => Ok(SKU { skin: Some(v), ..r }),
            Err(e) => Err(e),
        }
    } else if name == name_killstreak_tier() {
        match parse_enum_u32_spec("killstreak tier"@, Domain::KillstreakTier, value) {
            Ok(v) => Ok(SKU { killstreak_tier: Some(v), ..r }),
            Err(e) => Err(e),
        }
    } else if name == name_target_defindex() {
        match parse_plain_u32_spec("target defindex"@, value) {
            Ok(v) => Ok(SKU { target_defindex: Some(v), ..r }),
            Err(e) => Err(e),
        }
    } else if name == name_output_defindex() {
        match parse_plain_u32_spec("output defindex"@, value) {
            Ok(v) => Ok(SKU { output_defindex: Some(v), ..r }),
            Err(e) => Err(e),
        }
    } else if name == name_output_quality() {
        match parse_enum_u32_spec("output quality"@, Domain::Quality, value) {
            Ok(v) => Ok(SKU { output_quality: Some(v), ..r }),
            Err(e) => Err(e),
        }
    } else if name == name_sheen() {
        match parse_enum_u32_spec("sheen"@, Domain::Sheen, value) {
            Ok(v) => Ok(SKU { sheen: Some(v), ..r }),
            Err(e) => Err(e),
        }
    } else if name == name_killstreaker() {
        match parse_enum_u32_spec("killstreaker"@, Domain::Killstreaker, value) {
            Ok(v) => Ok(SKU { killstreaker: Some(v), ..r }),
            Err(e) => Err(e),
        }
    } else if name == name_uncraftable() {
        Ok(SKU { craftable: false, ..r })
    } else if name == name_australium() {
        Ok(SKU { australium: true, ..r })
    } else if name == name_strange() {
        Ok(SKU { strange: true, ..r })
    } else if name == name_festive() {
        Ok(SKU { festivized: true, ..r })
    } else {
        Ok(r)
    }
}

/// Whether the first `len` characters of `element` are exactly `lit`.
fn name_eq(element: &str, len: usize, lit: &str) -> (b: bool)
    requires
        len <= element@.len(),
    ensures
        b == (element@.take(len as int) == lit@),
{
    let litlen = lit.unicode_len();
    if len != litlen {
        proof {
            assert(element@.take(len as int).len() == len);
        }
        return false;
    }
    let mut i: usize = 0;
    while i < len
        invariant
            0 <= i <= len == litlen,
            len <= element@.len(),
            litlen == lit@.len(),
            forall|j: int| 0 <= j < i ==> element@[j] == lit@[j],
        decreases len - i,
    {
        let a = element.get_char(i);
        let b = lit.get_char(i);
        if a != b {
            proof {
                assert(element@.take(len as int)[i as int] == element@[i as int]);
            }
            return false;
        }
        i += 1;
    }
    proof {
        assert(element@.take(len as int) =~= lit@);
    }
    true
}

/// Parses a single SKU attribute token into `parsed`, as
/// [`apply_element_spec`] describes: the name selects the attribute,
/// unknown names leave the record unchanged, and on an error the record is
/// left unchanged too.
#[verifier::rlimit(100)]
pub fn parse_sku_element(parsed: &mut SKU, element: &str) -> (r: Result<(), ParseError>)
    ensures
        ({
            let res = apply_element_spec(*old(parsed), element@);
            &&& (res matches Ok(r2) ==> r is Ok && *final(parsed) == r2)
            &&& (res matches Err(e) ==> (r matches Err(e2) && e2@ == e) && *final(parsed) == *old(
                parsed,
            ))
        }),
{
    let n = element.unicode_len();
    let mut split_at = n;
    let mut done = false;
    // Walk back through the characters until a non-digit is found. Non-ASCII
    // characters are never digits, so the scan stops at them too.
    while !done && split_at > 0
        invariant
            n == element@.len(),
            0 <= split_at <= n,
            forall|j: int| split_at <= j < n ==> is_digit_char(#[trigger] element@[j]),
            done ==> split_at > 0 && !is_digit_char(element@[split_at - 1]),
        decreases split_at + (if done { 0int } else { 1 }),
    {
        let c = element.get_char(split_at - 1);
        if is_ascii_digit_char(c) {
            split_at -= 1;
        } else {
            done = true;
        }
    }
    proof {
        lemma_digit_suffix(element@);
        let k = digit_suffix_len(element@);
        if k > n - split_at {
            assert(is_digit_char(element@[split_at - 1]));
        }
        if k < n - split_at {
            assert(is_digit_char(element@[n - k - 1]));
        }
        assert(k == n - split_at);
    }
    let ghost name = elem_name(element@);
    let ghost value_spec = elem_value(element@);
    proof {
        assert(name == element@.take(split_at as int));
        assert(value_spec == element@.skip(split_at as int));
    }
    let value = element.substring_char(split_at, n);
    proof {
        assert(value@ =~= value_spec);
    }

    proof {
        reveal_strlit("u");
        assert("u"@ =~= name_particle());
    }
    if name_eq(element, split_at, "u") {
        return match parse_u32("particle", value) {
            Ok(v) => {
                parsed.particle = Some(v);
                Ok(())
            },
            Err(e) => Err(e),
        };
    }
    proof {
        reveal_strlit("w");
        assert("w"@ =~= name_wear());
    }
    if name_eq(element, split_at, "w") {
        return match parse_enum_u32("wear", Domain::Wear, value) {
            Ok(v) => {
                parsed.wear = Some(v);
                Ok(())
            },
            Err(e) => Err(e),
        };
    }
    proof {
        reveal_strlit("n");
        assert("n"@ =~= name_craft_number());
    }
    if name_eq(element, split_at, "n") {
        return match parse_u32("craft number", value) {
            Ok(v) => {
                parsed.craft_number = Some(v);
                Ok(())
            },
            Err(e) => Err(e),
        };
    }
    proof {
        reveal_strlit("c");
        assert("c"@ =~= name_crate_number());
    }
    if name_eq(element, split_at, "c") {
        return match parse_u32("crate number", value) {
            Ok(v) => {
                parsed.crate_number = Some(v);
                Ok(())
            },
            Err(e) => Err(e),
        };
    }
    proof {
        reveal_strlit("p");
        assert("p"@ =~= name_paint());
    }
    if name_eq(element, split_at, "p") {
        return match parse_enum_u32("paint", Domain::Paint, value) {
            Ok(v) => {
                parsed.paint = Some(v);
                Ok(())
            },
            Err(e) => Err(e),
        };
    }
    proof {
        reveal_strlit("pk");
        assert("pk"@ =~= name_skin());
    }
    if name_eq(element, split_at, "pk") {
        return match parse_u32("skin", value) {
            Ok(v) => {
                parsed.skin = Some(v);
                Ok(())
            },
            Err(e) => Err(e),
        };
    }
    proof {
        reveal_strlit("kt-");
        assert("kt-"@ =~= name_killstreak_tier());
    }
    if name_eq(element, split_at, "kt-") {
        return match parse_enum_u32("killstreak tier", Domain::KillstreakTier, value) {
            Ok(v) => {
                parsed.killstreak_tier = Some(v);
                Ok(())
            },
            Err(e) => Err(e),
        };
    }
    proof {
        reveal_strlit("td-");
        assert("td-"@ =~= name_target_defindex());
    }
    if name_eq(element, split_at, "td-") {
        return match parse_u32("target defindex", value) {
            Ok(v) => {
                parsed.target_defindex = Some(v);
                Ok(())
            },
            Err(e) => Err(e),
        };
    }
    proof {
        reveal_strlit("od-");
        assert("od-"@ =~= name_output_defindex());
    }
    if name_eq(element, split_at, "od-") {
        return match parse_u32("output defindex", value) {
            Ok(v) => {
                parsed.output_defindex = Some(v);
                Ok(())
            },
            Err(e) => Err(e),
        };
    }
    proof {
        reveal_strlit("oq-");
        assert("oq-"@ =~= name_output_quality());
    }
    if name_eq(element, split_at, "oq-") {
        return match parse_enum_u32("output quality", Domain::Quality, value) {
            Ok(v) => {
                parsed.output_quality = Some(v);
                Ok(())
            },
            Err(e) => Err(e),
        };
    }
    proof {
        reveal_strlit("ks-");
        assert("ks-"@ =~= name_sheen());
    }
    if name_eq(element, split_at, "ks-") {
        return match parse_enum_u32("sheen", Domain::Sheen, value) {
            Ok(v) => {
                parsed.sheen = Some(v);
                Ok(())
            },
            Err(e) => Err(e),
        };
    }
    proof {
        reveal_strlit("ke-");
        assert("ke-"@ =~= name_killstreaker());
    }
    if name_eq(element, split_at, "ke-") {
        return match parse_enum_u32("killstreaker", Domain::Killstreaker, value) {
            Ok(v) => {
                parsed.killstreaker = Some(v);
                Ok(())
            },
            Err(e) => Err(e),
        };
    }
    proof {
        reveal_strlit("uncraftable");
        assert("uncraftable"@ =~= name_uncraftable());
    }
    if name_eq(element, split_at, "uncraftable") {
        parsed.craftable = false;
        return Ok(());
    }
    proof {
        reveal_strlit("australium");
        assert("australium"@ =~= name_australium());
    }
    if name_eq(element, split_at, "australium") {
        parsed.australium = true;
        return Ok(());
    }
    proof {
        reveal_strlit("strange");
        assert("strange"@ =~= name_strange());
    }
    if name_eq(element, split_at, "strange") {
        parsed.strange = true;
        return Ok(());
    }
    proof {
        reveal_strlit("festive");
        assert("festive"@ =~= name_festive());
    }
    if name_eq(element, split_at, "festive") {
        parsed.festivized = true;
        return Ok(());
    }
    // Unknown attribute names are deliberately ignored.
    Ok(())
}

/// Dispatches each token of `ts` in turn, stopping at the first error.
pub open spec fn apply_all(r: SKU, ts: Seq<Seq<char>>) -> Result<SKU, ParseErrorModel>
    decreases ts.len(),
{
    if ts.len() == 0 {
        Ok(r)
    } else {
        match apply_element_spec(r, ts[0]) {
            Err(e) => Err(e),
            Ok(r2) => apply_all(r2, ts.skip(1)),
        }
    }
}

/// What strict decoding returns: the record, if the string begins with a
/// parseable defindex and a recognized quality code and every further
/// recognized token carries a valid value; otherwise the first error met
/// reading left to right.
pub open spec fn decode_strict_spec(s: Seq<char>) -> Result<SKU, ParseErrorModel> {
    let toks = tokenize_spec(s);
    if toks.len() < 2 {
        Err(ParseErrorModel::InvalidFormat)
    } else {
        match parse_i32_spec(toks[0]) {
            Err(k) => Err(ParseErrorModel::ParseInt { key: "defindex"@, error: k }),
            Ok(d) => match parse_u32_spec(toks[1]) {
                Err(k) => Err(ParseErrorModel::ParseInt { key: "quality"@, error: k }),
                Ok(q) => if !quality_code_ok(q) {
                    Err(ParseErrorModel::InvalidValue { key: "quality"@, number: q })
                } else {
                    apply_all(SKU::new_spec(d, q), toks.skip(2))
                },
            },
        }
    }
}

/// Dispatches one token, keeping the record unchanged on any failure.
pub open spec fn lossy_apply(r: SKU, t: Seq<char>) -> SKU {
    match apply_element_spec(r, t) {
        Ok(r2) => r2,
        Err(_) => r,
    }
}

/// Dispatches each token of `ts` in turn, with failures silently discarded.
pub open spec fn lossy_all(r: SKU, ts: Seq<Seq<char>>) -> SKU
    decreases ts.len(),
{
    if ts.len() == 0 {
        r
    } else {
        lossy_all(lossy_apply(r, ts[0]), ts.skip(1))
    }
}

/// What lossy decoding returns: as strict decoding, but an absent or
/// unparseable defindex becomes -1, an absent or unrecognized quality
/// becomes the sentinel code 2 (Rarity2), both tokens then also being run
/// through the dispatcher, and every later failure leaves its field unset.
pub open spec fn decode_lossy_spec(s: Seq<char>) -> SKU {
    let toks = tokenize_spec(s);
    let t0 = if toks.len() >= 1 {
        toks[0]
    } else {
        Seq::<char>::empty()
    };
    let t1 = if toks.len() >= 2 {
        toks[1]
    } else {
        Seq::<char>::empty()
    };
    let r0 = SKU::default_spec();
    let r1 = match parse_i32_spec(t0) {
        Ok(d) => SKU { defindex: d, ..r0 },
        Err(_) => lossy_apply(SKU { defindex: -1i32, ..r0 }, t0),
    };
    let r2 = match parse_u32_spec(t1) {
        Ok(q) => if quality_code_ok(q) {
            SKU { quality: q, ..r1 }
        } else {
            lossy_apply(SKU { quality: 2, ..r1 }, t1)
        },
        Err(_) => lossy_apply(SKU { quality: 2, ..r1 }, t1),
    };
    if toks.len() >= 2 {
        lossy_all(r2, toks.skip(2))
    } else {
        r2
    }
}

impl SKU {
    /// Attempts to parse a SKU from a string, strictly: fails on a malformed
    /// defindex or quality, on a recognized attribute whose value does not
    /// parse, and on a code its domain does not recognize, with the first
    /// error met reading left to right. Unknown attribute names are ignored.
    #[verifier::rlimit(100)]
    pub fn try_from(string: &str) -> (r: Result<SKU, ParseError>)
        ensures
            (decode_strict_spec(string@) matches Ok(k) ==> r matches Ok(k2) && k2 == k),
            (decode_strict_spec(string@) matches Err(e) ==> r matches Err(e2) && e2@ == e),
    {
        let tokens = tokenize(string);
        let ghost toks = tokenize_spec(string@);
        proof {
            assert(tokens@.len() == toks.len());
        }
        if tokens.len() < 2 {
            return Err(ParseError::InvalidFormat);
        }
        let t0: &str = tokens[0];
        let t1: &str = tokens[1];
        proof {
            assert(t0@ == toks[0]);
            assert(t1@ == toks[1]);
        }
        let defindex = match parse_i32_str(t0) {
            Ok(d) => d,
            Err(k) => {
                return Err(ParseError::ParseInt { key: "defindex", error: k });
            },
        };
        let quality = match parse_u32_str(t1) {
            Ok(q) => q,
            Err(k) => {
                return Err(ParseError::ParseInt { key: "quality", error: k });
            },
        };
        if !check_quality_code(quality) {
            return Err(ParseError::InvalidValue { key: "quality", number: quality });
        }
        let mut parsed = SKU::new(defindex, quality);
        let ghost start = SKU::new_spec(defindex, quality);
        let mut i: usize = 2;
        while i < tokens.len()
            invariant
                2 <= i <= tokens.len(),
                tokens.deep_view() == toks,
                toks == tokenize_spec(string@),
                toks.len() >= 2,
                decode_strict_spec(string@) == apply_all(start, toks.skip(2)),
                apply_all(parsed, toks.skip(i as int)) == apply_all(start, toks.skip(2)),
            decreases tokens.len() - i,
        {
            let el: &str = tokens[i];
            proof {
                assert(el@ == toks[i as int]);
                assert(toks.skip(i as int)[0] == toks[i as int]);
                assert(toks.skip(i as int).skip(1) =~~= toks.skip(i + 1));
            }
            match parse_sku_element(&mut parsed, el) {
                Ok(()) => {},
                Err(e) => {
                    return Err(e);
                },
            }
            i += 1;
        }
        proof {
            assert(toks.skip(tokens.len() as int) =~~= Seq::<Seq<char>>::empty());
        }
        Ok(parsed)
    }

    /// Infallible method for parsing from a string. Always produces an
    /// output regardless of format. It's advised to use [`SKU::try_from`]
    /// over this method to ensure predictable output. If no `defindex` is
    /// detected, it will default to `-1`. The quality falls back to the
    /// sentinel code 2 (Rarity2). If the SKU is properly formatted this
    /// functions identical to [`SKU::try_from`].
    #[verifier::rlimit(100)]
    pub fn from_str(string: &str) -> (r: SKU)
        ensures
            r == decode_lossy_spec(string@),
    {
        let tokens = tokenize(string);
        let ghost toks = tokenize_spec(string@);
        let mut parsed = SKU::new(0, 0);
        let t0: &str = if tokens.len() >= 1 {
            tokens[0]
        } else {
            ""
        };
        let t1: &str = if tokens.len() >= 2 {
            tokens[1]
        } else {
            ""
        };
        proof {
            reveal_strlit("");
            assert(""@ =~= Seq::<char>::empty());
            if toks.len() >= 1 {
                assert(t0@ == toks[0]);
            }
            if toks.len() >= 2 {
                assert(t1@ == toks[1]);
            }
        }
        match parse_i32_str(t0) {
            Ok(d) => {
                parsed.defindex = d;
            },
            Err(_) => {
                parsed.defindex = -1;
                let _ = parse_sku_element(&mut parsed, t0);
            },
        }
        let quality_parsed = match parse_u32_str(t1) {
            Ok(q) => {
                if check_quality_code(q) {
                    Some(q)
                } else {
                    None
                }
            },
            Err(_) => None,
        };
        match quality_parsed {
            Some(q) => {
                parsed.quality = q;
            },
            None => {
                parsed.quality = quality_rarity2_code();
                let _ = parse_sku_element(&mut parsed, t1);
            },
        }
        let ghost r2 = parsed;
        let mut i: usize = 2;
        while i < tokens.len()
            invariant
                2 <= i,
                tokens.len() >= 2 ==> i <= tokens.len(),
                tokens.deep_view() == toks,
                toks.len() >= 2 ==> i <= toks.len() && lossy_all(parsed, toks.skip(i as int))
                    == lossy_all(r2, toks.skip(2)),
                toks.len() < 2 ==> parsed == r2,
            decreases tokens.len() - i,
        {
            let el: &str = tokens[i];
            proof {
                assert(el@ == toks[i as int]);
                assert(toks.skip(i as int)[0] == toks[i as int]);
                assert(toks.skip(i as int).skip(1) =~~= toks.skip(i + 1));
            }
            let _ = parse_sku_element(&mut parsed, el);
            i += 1;
        }
        proof {
            if toks.len() >= 2 {
                assert(toks.skip(toks.len() as int) =~~= Seq::<Seq<char>>::empty());
            }
        }
        parsed
    }
}

} // verus!
