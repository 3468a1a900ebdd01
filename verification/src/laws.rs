//! The codec's laws.
//!
//! Chief among them: strict decoding of a canonical string gives back
//! exactly the record it was formatted from, so formatting that record
//! reproduces the string byte for byte.

use vstd::prelude::*;
use crate::digits::{
    all_digits, dec_i32, dec_u32, digit_suffix_len, is_digit_char, lemma_dec_u32,
    lemma_digit_suffix, lemma_digit_suffix_append, lemma_parse_dec_i32, lemma_parse_dec_u32,
    parse_i32_spec, parse_u32_spec,
};
use crate::error::ParseErrorModel;
use crate::codes::quality_code_ok;
use crate::parse::{
    apply_all, apply_element_spec, decode_strict_spec, elem_name, elem_value, known_name,
};
use crate::sku::{
    flag_tok, format_spec, name_australium, name_craft_number, name_crate_number, name_festive,
    name_killstreak_tier, name_killstreaker, name_output_defindex, name_output_quality,
    name_paint, name_particle, name_sheen, name_skin, name_strange, name_target_defindex,
    name_uncraftable, name_wear, opt_tok, sku_tokens, SKU,
};
use crate::tokens::{
    join_semi, lemma_split_join, no_semi, no_semi_all, split_semi, tokenize_spec,
};

verus! {

/// A digit is never a `;`.
proof fn lemma_no_semi_digits(s: Seq<char>)
    requires
        all_digits(s),
    ensures
        no_semi(s),
{
    assert forall|i: int| 0 <= i < s.len() implies #[trigger] s[i] != ';' by {
        assert(is_digit_char(s[i]));
    }
}

/// A decimal rendering holds no `;`.
proof fn lemma_no_semi_dec_u32(n: int)
    requires
        n >= 0,
    ensures
        no_semi(dec_u32(n)),
{
    lemma_dec_u32(n);
    lemma_no_semi_digits(dec_u32(n));
}

/// A signed decimal rendering holds no `;`.
proof fn lemma_no_semi_dec_i32(n: int)
    ensures
        no_semi(dec_i32(n)),
{
    if n < 0 {
        lemma_no_semi_dec_u32(-n);
        assert forall|i: int| 0 <= i < dec_i32(n).len() implies #[trigger] dec_i32(n)[i] != ';' by {
            if i > 0 {
                assert(dec_i32(n)[i] == dec_u32(-n)[i - 1]);
            }
        }
    } else {
        lemma_no_semi_dec_u32(n);
    }
}

/// Concatenating `;`-free strings stays `;`-free.
proof fn lemma_no_semi_concat(a: Seq<char>, b: Seq<char>)
    requires
        no_semi(a),
        no_semi(b),
    ensures
        no_semi(a + b),
{
    assert forall|i: int| 0 <= i < (a + b).len() implies #[trigger] (a + b)[i] != ';' by {
        if i < a.len() {
            assert((a + b)[i] == a[i]);
        } else {
            assert((a + b)[i] == b[i - a.len()]);
        }
    }
}

/// Concatenating token lists of `;`-free tokens stays `;`-free.
proof fn lemma_no_semi_all_concat(a: Seq<Seq<char>>, b: Seq<Seq<char>>)
    requires
        no_semi_all(a),
        no_semi_all(b),
    ensures
        no_semi_all(a + b),
{
    assert forall|i: int| 0 <= i < (a + b).len() implies no_semi(#[trigger] (a + b)[i]) by {
        if i < a.len() {
            assert((a + b)[i] == a[i]);
        } else {
            assert((a + b)[i] == b[i - a.len()]);
        }
    }
}

/// An optional valued segment's token holds no `;`.
proof fn lemma_no_semi_opt_tok(name: Seq<char>, v: Option<u32>)
    requires
        no_semi(name),
    ensures
        no_semi_all(opt_tok(name, v)),
{
    match v {
        Some(x) => {
            lemma_no_semi_dec_u32(x as int);
            lemma_no_semi_concat(name, dec_u32(x as int));
            assert(opt_tok(name, v)[0] == name + dec_u32(x as int));
        },
        None => {},
    }
}

/// A flag segment's token holds no `;`.
proof fn lemma_no_semi_flag_tok(name: Seq<char>, on: bool)
    requires
        no_semi(name),
    ensures
        no_semi_all(flag_tok(name, on)),
{
    if on {
        assert(flag_tok(name, on)[0] == name);
    }
}

/// No attribute name holds a `;`.
proof fn lemma_names_no_semi()
    ensures
        no_semi(name_particle()),
        no_semi(name_wear()),
        no_semi(name_craft_number()),
        no_semi(name_crate_number()),
        no_semi(name_paint()),
        no_semi(name_skin()),
        no_semi(name_killstreak_tier()),
        no_semi(name_target_defindex()),
        no_semi(name_output_defindex()),
        no_semi(name_output_quality()),
        no_semi(name_sheen()),
        no_semi(name_killstreaker()),
        no_semi(name_uncraftable()),
        no_semi(name_australium()),
        no_semi(name_strange()),
        no_semi(name_festive()),
{
}

/// None of a SKU's canonical tokens holds a `;`.
#[verifier::rlimit(100)]
proof fn lemma_sku_tokens_no_semi(r: SKU)
    ensures
        no_semi_all(sku_tokens(r)),
{
    lemma_names_no_semi();
    lemma_no_semi_dec_i32(r.defindex as int);
    lemma_no_semi_dec_u32(r.quality as int);
    let head = seq![dec_i32(r.defindex as int), dec_u32(r.quality as int)];
    assert(no_semi_all(head)) by {
        assert forall|i: int| 0 <= i < head.len() implies no_semi(#[trigger] head[i]) by {
            if i == 0 {
                assert(head[0] == dec_i32(r.defindex as int));
            } else {
                assert(head[1] == dec_u32(r.quality as int));
            }
        }
    }
    lemma_no_semi_opt_tok(name_particle(), r.particle);
    lemma_no_semi_flag_tok(name_uncraftable(), !r.craftable);
    lemma_no_semi_flag_tok(name_australium(), r.australium);
    lemma_no_semi_flag_tok(name_strange(), r.strange);
    lemma_no_semi_opt_tok(name_wear(), r.wear);
    lemma_no_semi_opt_tok(name_skin(), r.skin);
    lemma_no_semi_opt_tok(name_killstreak_tier(), r.killstreak_tier);
    lemma_no_semi_flag_tok(name_festive(), r.festivized);
    lemma_no_semi_opt_tok(name_crate_number(), r.crate_number);
    lemma_no_semi_opt_tok(name_craft_number(), r.craft_number);
    lemma_no_semi_opt_tok(name_target_defindex(), r.target_defindex);
    lemma_no_semi_opt_tok(name_output_defindex(), r.output_defindex);
    lemma_no_semi_opt_tok(name_output_quality(), r.output_quality);
    lemma_no_semi_opt_tok(name_paint(), r.paint);
    lemma_no_semi_opt_tok(name_sheen(), r.sheen);
    lemma_no_semi_opt_tok(name_killstreaker(), r.killstreaker);
    let d0 = head;
    let d1 = d0 + opt_tok(name_particle(), r.particle);
    lemma_no_semi_all_concat(d0, opt_tok(name_particle(), r.particle));
    let d2 = d1 + flag_tok(name_uncraftable(), !r.craftable);
    lemma_no_semi_all_concat(d1, flag_tok(name_uncraftable(), !r.craftable));
    let d3 = d2 + flag_tok(name_australium(), r.australium);
    lemma_no_semi_all_concat(d2, flag_tok(name_australium(), r.australium));
    let d4 = d3 + flag_tok(name_strange(), r.strange);
    lemma_no_semi_all_concat(d3, flag_tok(name_strange(), r.strange));
    let d5 = d4 + opt_tok(name_wear(), r.wear);
    lemma_no_semi_all_concat(d4, opt_tok(name_wear(), r.wear));
    let d6 = d5 + opt_tok(name_skin(), r.skin);
    lemma_no_semi_all_concat(d5, opt_tok(name_skin(), r.skin));
    let d7 = d6 + opt_tok(name_killstreak_tier(), r.killstreak_tier);
    lemma_no_semi_all_concat(d6, opt_tok(name_killstreak_tier(), r.killstreak_tier));
    let d8 = d7 + flag_tok(name_festive(), r.festivized);
    lemma_no_semi_all_concat(d7, flag_tok(name_festive(), r.festivized));
    let d9 = d8 + opt_tok(name_crate_number(), r.crate_number);
    lemma_no_semi_all_concat(d8, opt_tok(name_crate_number(), r.crate_number));
    let d10 = d9 + opt_tok(name_craft_number(), r.craft_number);
    lemma_no_semi_all_concat(d9, opt_tok(name_craft_number(), r.craft_number));
    let d11 = d10 + opt_tok(name_target_defindex(), r.target_defindex);
    lemma_no_semi_all_concat(d10, opt_tok(name_target_defindex(), r.target_defindex));
    let d12 = d11 + opt_tok(name_output_defindex(), r.output_defindex);
    lemma_no_semi_all_concat(d11, opt_tok(name_output_defindex(), r.output_defindex));
    let d13 = d12 + opt_tok(name_output_quality(), r.output_quality);
    lemma_no_semi_all_concat(d12, opt_tok(name_output_quality(), r.output_quality));
    let d14 = d13 + opt_tok(name_paint(), r.paint);
    lemma_no_semi_all_concat(d13, opt_tok(name_paint(), r.paint));
    let d15 = d14 + opt_tok(name_sheen(), r.sheen);
    lemma_no_semi_all_concat(d14, opt_tok(name_sheen(), r.sheen));
    let d16 = d15 + opt_tok(name_killstreaker(), r.killstreaker);
    lemma_no_semi_all_concat(d15, opt_tok(name_killstreaker(), r.killstreaker));
    assert(d16 == sku_tokens(r));
}

/// Tokenizing a SKU's canonical string gives back its canonical tokens.
proof fn lemma_format_tokens(r: SKU)
    ensures
        tokenize_spec(format_spec(r)) == sku_tokens(r),
{
    let toks = sku_tokens(r);
    lemma_sku_tokens_no_semi(r);
    lemma_dec_u32(r.quality as int);
    assert(toks.len() >= 2);
    assert(join_semi(toks).len() >= 1) by {
        assert(join_semi(toks) == toks[0] + seq![';'] + join_semi(toks.skip(1)));
    }
    lemma_split_join(toks);
    assert(split_semi(format_spec(r)) == toks);
}

/// Dispatching a concatenation of token lists dispatches the first list,
/// then the second from wherever the first ended up.
proof fn lemma_apply_all_concat(r: SKU, a: Seq<Seq<char>>, b: Seq<Seq<char>>)
    ensures
        apply_all(r, a + b) == match apply_all(r, a) {
            Ok(r2) => apply_all(r2, b),
            Err(e) => Err(e),
        },
    decreases a.len(),
{
    if a.len() == 0 {
        assert(a + b =~~= b);
    } else {
        assert((a + b)[0] == a[0]);
        match apply_element_spec(r, a[0]) {
            Err(_) => {},
            Ok(r2) => {
                assert((a + b).skip(1) =~~= a.skip(1) + b);
                lemma_apply_all_concat(r2, a.skip(1), b);
            },
        }
    }
}

/// Dispatching a single token is one dispatcher step.
proof fn lemma_apply_all_single(r: SKU, t: Seq<char>)
    ensures
        apply_all(r, seq![t]) == apply_element_spec(r, t),
{
    assert(seq![t][0] == t);
    assert(seq![t].skip(1) =~~= Seq::<Seq<char>>::empty());
    match apply_element_spec(r, t) {
        Ok(r2) => {
            assert(apply_all(r2, seq![t].skip(1)) == Ok::<SKU, ParseErrorModel>(r2));
        },
        Err(_) => {},
    }
}

/// A token built as a non-digit-terminated name followed by a decimal
/// rendering splits back into exactly that name and that value.
proof fn lemma_valued_token(prefix: Seq<char>, v: u32)
    requires
        prefix.len() >= 1,
        !is_digit_char(prefix.last()),
    ensures
        elem_name(prefix + dec_u32(v as int)) == prefix,
        elem_value(prefix + dec_u32(v as int)) == dec_u32(v as int),
{
    let d = dec_u32(v as int);
    let t = prefix + d;
    lemma_dec_u32(v as int);
    lemma_digit_suffix_append(prefix, d);
    assert(t.take(t.len() - d.len()) =~= prefix);
    assert(t.skip(t.len() - d.len()) =~= d);
}

/// A bare flag token splits into itself as the name and an empty value.
proof fn lemma_flag_token(name: Seq<char>)
    requires
        name.len() >= 1,
        !is_digit_char(name.last()),
    ensures
        elem_name(name) == name,
        elem_value(name) == Seq::<char>::empty(),
{
    assert(digit_suffix_len(name) == 0);
    assert(name.take(name.len() as int) =~= name);
    assert(name.skip(name.len() as int) =~= Seq::<char>::empty());
}

/// Dispatching the canonical particle token sets exactly the particle.
proof fn lemma_apply_particle(r: SKU, v: u32)
    ensures
        apply_element_spec(r, name_particle() + dec_u32(v as int)) == Ok::<SKU, ParseErrorModel>(
            SKU { particle: Some(v), ..r },
        ),
{
    assert(!is_digit_char(name_particle().last()));
    lemma_valued_token(name_particle(), v);
    lemma_parse_dec_u32(v as int);
}

/// Dispatching the canonical wear token sets exactly the wear.
proof fn lemma_apply_wear(r: SKU, v: u32)
    requires
        crate::codes::wear_code_ok(v),
    ensures
        apply_element_spec(r, name_wear() + dec_u32(v as int)) == Ok::<SKU, ParseErrorModel>(
            SKU { wear: Some(v), ..r },
        ),
{
    assert(!is_digit_char(name_wear().last()));
    lemma_valued_token(name_wear(), v);
    lemma_parse_dec_u32(v as int);
}

/// Dispatching the canonical skin token sets exactly the skin.
proof fn lemma_apply_skin(r: SKU, v: u32)
    ensures
        apply_element_spec(r, name_skin() + dec_u32(v as int)) == Ok::<SKU, ParseErrorModel>(
            SKU { skin: Some(v), ..r },
        ),
{
    assert(!is_digit_char(name_skin().last()));
    lemma_valued_token(name_skin(), v);
    lemma_parse_dec_u32(v as int);
}

/// Dispatching the canonical killstreak-tier token sets exactly the tier.
proof fn lemma_apply_killstreak_tier(r: SKU, v: u32)
    requires
        crate::codes::killstreak_tier_code_ok(v),
    ensures
        apply_element_spec(r, name_killstreak_tier() + dec_u32(v as int)) == Ok::<
            SKU,
            ParseErrorModel,
        >(SKU { killstreak_tier: Some(v), ..r }),
{
    assert(!is_digit_char(name_killstreak_tier().last()));
    lemma_valued_token(name_killstreak_tier(), v);
    lemma_parse_dec_u32(v as int);
}

/// Dispatching the canonical crate-number token sets exactly the crate
/// number.
proof fn lemma_apply_crate_number(r: SKU, v: u32)
    ensures
        apply_element_spec(r, name_crate_number() + dec_u32(v as int)) == Ok::<
            SKU,
            ParseErrorModel,
        >(SKU { crate_number: Some(v), ..r }),
{
    assert(!is_digit_char(name_crate_number().last()));
    lemma_valued_token(name_crate_number(), v);
    lemma_parse_dec_u32(v as int);
}

/// Dispatching the canonical craft-number token sets exactly the craft
/// number.
proof fn lemma_apply_craft_number(r: SKU, v: u32)
    ensures
        apply_element_spec(r, name_craft_number() + dec_u32(v as int)) == Ok::<
            SKU,
            ParseErrorModel,
        >(SKU { craft_number: Some(v), ..r }),
{
    assert(!is_digit_char(name_craft_number().last()));
    lemma_valued_token(name_craft_number(), v);
    lemma_parse_dec_u32(v as int);
}

/// Dispatching the canonical target-defindex token sets exactly the target
/// defindex.
proof fn lemma_apply_target_defindex(r: SKU, v: u32)
    ensures
        apply_element_spec(r, name_target_defindex() + dec_u32(v as int)) == Ok::<
            SKU,
            ParseErrorModel,
        >(SKU { target_defindex: Some(v), ..r }),
{
    assert(!is_digit_char(name_target_defindex().last()));
    lemma_valued_token(name_target_defindex(), v);
    lemma_parse_dec_u32(v as int);
}

/// Dispatching the canonical output-defindex token sets exactly the output
/// defindex.
proof fn lemma_apply_output_defindex(r: SKU, v: u32)
    ensures
        apply_element_spec(r, name_output_defindex() + dec_u32(v as int)) == Ok::<
            SKU,
            ParseErrorModel,
        >(SKU { output_defindex: Some(v), ..r }),
{
    assert(!is_digit_char(name_output_defindex().last()));
    lemma_valued_token(name_output_defindex(), v);
    lemma_parse_dec_u32(v as int);
}

/// Dispatching the canonical output-quality token sets exactly the output
/// quality.
proof fn lemma_apply_output_quality(r: SKU, v: u32)
    requires
        crate::codes::quality_code_ok(v),
    ensures
        apply_element_spec(r, name_output_quality() + dec_u32(v as int)) == Ok::<
            SKU,
            ParseErrorModel,
        >(SKU { output_quality: Some(v), ..r }),
{
    assert(!is_digit_char(name_output_quality().last()));
    lemma_valued_token(name_output_quality(), v);
    lemma_parse_dec_u32(v as int);
}

/// Dispatching the canonical paint token sets exactly the paint.
proof fn lemma_apply_paint(r: SKU, v: u32)
    requires
        crate::codes::paint_code_ok(v),
    ensures
        apply_element_spec(r, name_paint() + dec_u32(v as int)) == Ok::<SKU, ParseErrorModel>(
            SKU { paint: Some(v), ..r },
        ),
{
    assert(!is_digit_char(name_paint().last()));
    lemma_valued_token(name_paint(), v);
    lemma_parse_dec_u32(v as int);
}

/// Dispatching the canonical sheen token sets exactly the sheen.
proof fn lemma_apply_sheen(r: SKU, v: u32)
    requires
        crate::codes::sheen_code_ok(v),
    ensures
        apply_element_spec(r, name_sheen() + dec_u32(v as int)) == Ok::<SKU, ParseErrorModel>(
            SKU { sheen: Some(v), ..r },
        ),
{
    assert(!is_digit_char(name_sheen().last()));
    lemma_valued_token(name_sheen(), v);
    lemma_parse_dec_u32(v as int);
}

/// Dispatching the canonical killstreaker token sets exactly the
/// killstreaker.
proof fn lemma_apply_killstreaker(r: SKU, v: u32)
    requires
        crate::codes::killstreaker_code_ok(v),
    ensures
        apply_element_spec(r, name_killstreaker() + dec_u32(v as int)) == Ok::<
            SKU,
            ParseErrorModel,
        >(SKU { killstreaker: Some(v), ..r }),
{
    assert(!is_digit_char(name_killstreaker().last()));
    lemma_valued_token(name_killstreaker(), v);
    lemma_parse_dec_u32(v as int);
}

/// Dispatching the bare `uncraftable` token clears exactly craftable.
proof fn lemma_apply_uncraftable(r: SKU)
    ensures
        apply_element_spec(r, name_uncraftable()) == Ok::<SKU, ParseErrorModel>(
            SKU { craftable: false, ..r },
        ),
{
    assert(!is_digit_char(name_uncraftable().last()));
    lemma_flag_token(name_uncraftable());
}

/// Dispatching the bare `australium` token sets exactly australium.
proof fn lemma_apply_australium(r: SKU)
    ensures
        apply_element_spec(r, name_australium()) == Ok::<SKU, ParseErrorModel>(
            SKU { australium: true, ..r },
        ),
{
    assert(!is_digit_char(name_australium().last()));
    lemma_flag_token(name_australium());
}

/// Dispatching the bare `strange` token sets exactly strange.
proof fn lemma_apply_strange(r: SKU)
    ensures
        apply_element_spec(r, name_strange()) == Ok::<SKU, ParseErrorModel>(
            SKU { strange: true, ..r },
        ),
{
    assert(!is_digit_char(name_strange().last()));
    lemma_flag_token(name_strange());
}

/// Dispatching the bare `festive` token sets exactly festivized.
proof fn lemma_apply_festive(r: SKU)
    ensures
        apply_element_spec(r, name_festive()) == Ok::<SKU, ParseErrorModel>(
            SKU { festivized: true, ..r },
        ),
{
    assert(!is_digit_char(name_festive().last()));
    lemma_flag_token(name_festive());
}

/// The stages of the round-trip proof: `rt_chain_k` is the token list of
/// the first two mandatory tokens and the first `k` optional segments of a
/// SKU's canonical string, and `rt_state_k` is the record that dispatching
/// those `k` segments builds up from the freshly constructed record.
spec fn rt_chain_0(r: SKU) -> Seq<Seq<char>> {
    seq![dec_i32(r.defindex as int), dec_u32(r.quality as int)]
}

spec fn rt_state_0(r: SKU) -> SKU {
    SKU::new_spec(r.defindex, r.quality)
}

spec fn rt_chain_1(r: SKU) -> Seq<Seq<char>> {
    rt_chain_0(r) + opt_tok(name_particle(), r.particle)
}

spec fn rt_state_1(r: SKU) -> SKU {
    match r.particle {
        Some(v) => SKU { particle: Some(v), ..rt_state_0(r) },
        None => rt_state_0(r),
    }
}

spec fn rt_chain_2(r: SKU) -> Seq<Seq<char>> {
    rt_chain_1(r) + flag_tok(name_uncraftable(), !r.craftable)
}

spec fn rt_state_2(r: SKU) -> SKU {
    if !r.craftable {
        SKU { craftable: false, ..rt_state_1(r) }
    } else {
        rt_state_1(r)
    }
}

spec fn rt_chain_3(r: SKU) -> Seq<Seq<char>> {
    rt_chain_2(r) + flag_tok(name_australium(), r.australium)
}

spec fn rt_state_3(r: SKU) -> SKU {
    if r.australium {
        SKU { australium: true, ..rt_state_2(r) }
    } else {
        rt_state_2(r)
    }
}

spec fn rt_chain_4(r: SKU) -> Seq<Seq<char>> {
    rt_chain_3(r) + flag_tok(name_strange(), r.strange)
}

spec fn rt_state_4(r: SKU) -> SKU {
    if r.strange {
        SKU { strange: true, ..rt_state_3(r) }
    } else {
        rt_state_3(r)
    }
}

spec fn rt_chain_5(r: SKU) -> Seq<Seq<char>> {
    rt_chain_4(r) + opt_tok(name_wear(), r.wear)
}

spec fn rt_state_5(r: SKU) -> SKU {
    match r.wear {
        Some(v) => SKU { wear: Some(v), ..rt_state_4(r) },
        None => rt_state_4(r),
    }
}

spec fn rt_chain_6(r: SKU) -> Seq<Seq<char>> {
    rt_chain_5(r) + opt_tok(name_skin(), r.skin)
}

spec fn rt_state_6(r: SKU) -> SKU {
    match r.skin {
        Some(v) => SKU { skin: Some(v), ..rt_state_5(r) },
        None => rt_state_5(r),
    }
}

spec fn rt_chain_7(r: SKU) -> Seq<Seq<char>> {
    rt_chain_6(r) + opt_tok(name_killstreak_tier(), r.killstreak_tier)
}

spec fn rt_state_7(r: SKU) -> SKU {
    match r.killstreak_tier {
        Some(v) => SKU { killstreak_tier: Some(v), ..rt_state_6(r) },
        None => rt_state_6(r),
    }
}

spec fn rt_chain_8(r: SKU) -> Seq<Seq<char>> {
    rt_chain_7(r) + flag_tok(name_festive(), r.festivized)
}

spec fn rt_state_8(r: SKU) -> SKU {
    if r.festivized {
        SKU { festivized: true, ..rt_state_7(r) }
    } else {
        rt_state_7(r)
    }
}

spec fn rt_chain_9(r: SKU) -> Seq<Seq<char>> {
    rt_chain_8(r) + opt_tok(name_crate_number(), r.crate_number)
}

spec fn rt_state_9(r: SKU) -> SKU {
    match r.crate_number {
        Some(v) => SKU { crate_number: Some(v), ..rt_state_8(r) },
        None => rt_state_8(r),
    }
}

spec fn rt_chain_10(r: SKU) -> Seq<Seq<char>> {
    rt_chain_9(r) + opt_tok(name_craft_number(), r.craft_number)
}

spec fn rt_state_10(r: SKU) -> SKU {
    match r.craft_number {
        Some(v) => SKU { craft_number: Some(v), ..rt_state_9(r) },
        None => rt_state_9(r),
    }
}

spec fn rt_chain_11(r: SKU) -> Seq<Seq<char>> {
    rt_chain_10(r) + opt_tok(name_target_defindex(), r.target_defindex)
}

spec fn rt_state_11(r: SKU) -> SKU {
    match r.target_defindex {
        Some(v) => SKU { target_defindex: Some(v), ..rt_state_10(r) },
        None => rt_state_10(r),
    }
}

spec fn rt_chain_12(r: SKU) -> Seq<Seq<char>> {
    rt_chain_11(r) + opt_tok(name_output_defindex(), r.output_defindex)
}

spec fn rt_state_12(r: SKU) -> SKU {
    match r.output_defindex {
        Some(v) => SKU { output_defindex: Some(v), ..rt_state_11(r) },
        None => rt_state_11(r),
    }
}

spec fn rt_chain_13(r: SKU) -> Seq<Seq<char>> {
    rt_chain_12(r) + opt_tok(name_output_quality(), r.output_quality)
}

spec fn rt_state_13(r: SKU) -> SKU {
    match r.output_quality {
        Some(v) => SKU { output_quality: Some(v), ..rt_state_12(r) },
        None => rt_state_12(r),
    }
}

spec fn rt_chain_14(r: SKU) -> Seq<Seq<char>> {
    rt_chain_13(r) + opt_tok(name_paint(), r.paint)
}

spec fn rt_state_14(r: SKU) -> SKU {
    match r.paint {
        Some(v) => SKU { paint: Some(v), ..rt_state_13(r) },
        None => rt_state_13(r),
    }
}

spec fn rt_chain_15(r: SKU) -> Seq<Seq<char>> {
    rt_chain_14(r) + opt_tok(name_sheen(), r.sheen)
}

spec fn rt_state_15(r: SKU) -> SKU {
    match r.sheen {
        Some(v) => SKU { sheen: Some(v), ..rt_state_14(r) },
        None => rt_state_14(r),
    }
}

spec fn rt_chain_16(r: SKU) -> Seq<Seq<char>> {
    rt_chain_15(r) + opt_tok(name_killstreaker(), r.killstreaker)
}

spec fn rt_state_16(r: SKU) -> SKU {
    match r.killstreaker {
        Some(v) => SKU { killstreaker: Some(v), ..rt_state_15(r) },
        None => rt_state_15(r),
    }
}

/// Dispatching the first 1 canonical segments builds the stage-1
/// record.
proof fn lemma_rt_stage_1(r: SKU)
    requires
        r.wf(),
    ensures
        apply_all(rt_state_0(r), rt_chain_1(r).skip(2)) == Ok::<SKU, ParseErrorModel>(
            rt_state_1(r),
        ),
{
    let s0 = rt_state_0(r);
    let p = opt_tok(name_particle(), r.particle);
    lemma_rt_stage_0(r);
    assert(rt_chain_1(r).skip(2) =~~= rt_chain_0(r).skip(2) + p);
    lemma_apply_all_concat(s0, rt_chain_0(r).skip(2), p);
    match r.particle {
        Some(v) => {
            lemma_apply_particle(rt_state_0(r), v);
            lemma_apply_all_single(rt_state_0(r), name_particle() + dec_u32(v as int));
            assert(p =~~= seq![name_particle() + dec_u32(v as int)]);
        },
        None => {
            assert(p =~~= Seq::<Seq<char>>::empty());
        },
    }
}

/// Dispatching the first 2 canonical segments builds the stage-2
/// record.
proof fn lemma_rt_stage_2(r: SKU)
    requires
        r.wf(),
    ensures
        apply_all(rt_state_0(r), rt_chain_2(r).skip(2)) == Ok::<SKU, ParseErrorModel>(
            rt_state_2(r),
        ),
{
    let s0 = rt_state_0(r);
    let p = flag_tok(name_uncraftable(), !r.craftable);
    lemma_rt_stage_1(r);
    assert(rt_chain_2(r).skip(2) =~~= rt_chain_1(r).skip(2) + p);
    lemma_apply_all_concat(s0, rt_chain_1(r).skip(2), p);
    if !r.craftable {
        lemma_apply_uncraftable(rt_state_1(r));
        lemma_apply_all_single(rt_state_1(r), name_uncraftable());
        assert(p =~~= seq![name_uncraftable()]);
    } else {
        assert(p =~~= Seq::<Seq<char>>::empty());
    }
}

/// Dispatching the first 3 canonical segments builds the stage-3
/// record.
proof fn lemma_rt_stage_3(r: SKU)
    requires
        r.wf(),
    ensures
        apply_all(rt_state_0(r), rt_chain_3(r).skip(2)) == Ok::<SKU, ParseErrorModel>(
            rt_state_3(r),
        ),
{
    let s0 = rt_state_0(r);
    let p = flag_tok(name_australium(), r.australium);
    lemma_rt_stage_2(r);
    assert(rt_chain_3(r).skip(2) =~~= rt_chain_2(r).skip(2) + p);
    lemma_apply_all_concat(s0, rt_chain_2(r).skip(2), p);
    if r.australium {
        lemma_apply_australium(rt_state_2(r));
        lemma_apply_all_single(rt_state_2(r), name_australium());
        assert(p =~~= seq![name_australium()]);
    } else {
        assert(p =~~= Seq::<Seq<char>>::empty());
    }
}

/// Dispatching the first 4 canonical segments builds the stage-4
/// record.
proof fn lemma_rt_stage_4(r: SKU)
    requires
        r.wf(),
    ensures
        apply_all(rt_state_0(r), rt_chain_4(r).skip(2)) == Ok::<SKU, ParseErrorModel>(
            rt_state_4(r),
        ),
{
    let s0 = rt_state_0(r);
    let p = flag_tok(name_strange(), r.strange);
    lemma_rt_stage_3(r);
    assert(rt_chain_4(r).skip(2) =~~= rt_chain_3(r).skip(2) + p);
    lemma_apply_all_concat(s0, rt_chain_3(r).skip(2), p);
    if r.strange {
        lemma_apply_strange(rt_state_3(r));
        lemma_apply_all_single(rt_state_3(r), name_strange());
        assert(p =~~= seq![name_strange()]);
    } else {
        assert(p =~~= Seq::<Seq<char>>::empty());
    }
}

/// Dispatching the first 5 canonical segments builds the stage-5
/// record.
proof fn lemma_rt_stage_5(r: SKU)
    requires
        r.wf(),
    ensures
        apply_all(rt_state_0(r), rt_chain_5(r).skip(2)) == Ok::<SKU, ParseErrorModel>(
            rt_state_5(r),
        ),
{
    let s0 = rt_state_0(r);
    let p = opt_tok(name_wear(), r.wear);
    lemma_rt_stage_4(r);
    assert(rt_chain_5(r).skip(2) =~~= rt_chain_4(r).skip(2) + p);
    lemma_apply_all_concat(s0, rt_chain_4(r).skip(2), p);
    match r.wear {
        Some(v) => {
            lemma_apply_wear(rt_state_4(r), v);
            lemma_apply_all_single(rt_state_4(r), name_wear() + dec_u32(v as int));
            assert(p =~~= seq![name_wear() + dec_u32(v as int)]);
        },
        None => {
            assert(p =~~= Seq::<Seq<char>>::empty());
        },
    }
}

/// Dispatching the first 6 canonical segments builds the stage-6
/// record.
proof fn lemma_rt_stage_6(r: SKU)
    requires
        r.wf(),
    ensures
        apply_all(rt_state_0(r), rt_chain_6(r).skip(2)) == Ok::<SKU, ParseErrorModel>(
            rt_state_6(r),
        ),
{
    let s0 = rt_state_0(r);
    let p = opt_tok(name_skin(), r.skin);
    lemma_rt_stage_5(r);
    assert(rt_chain_6(r).skip(2) =~~= rt_chain_5(r).skip(2) + p);
    lemma_apply_all_concat(s0, rt_chain_5(r).skip(2), p);
    match r.skin {
        Some(v) => {
            lemma_apply_skin(rt_state_5(r), v);
            lemma_apply_all_single(rt_state_5(r), name_skin() + dec_u32(v as int));
            assert(p =~~= seq![name_skin() + dec_u32(v as int)]);
        },
        None => {
            assert(p =~~= Seq::<Seq<char>>::empty());
        },
    }
}

/// Dispatching the first 7 canonical segments builds the stage-7
/// record.
proof fn lemma_rt_stage_7(r: SKU)
    requires
        r.wf(),
    ensures
        apply_all(rt_state_0(r), rt_chain_7(r).skip(2)) == Ok::<SKU, ParseErrorModel>(
            rt_state_7(r),
        ),
{
    let s0 = rt_state_0(r);
    let p = opt_tok(name_killstreak_tier(), r.killstreak_tier);
    lemma_rt_stage_6(r);
    assert(rt_chain_7(r).skip(2) =~~= rt_chain_6(r).skip(2) + p);
    lemma_apply_all_concat(s0, rt_chain_6(r).skip(2), p);
    match r.killstreak_tier {
        Some(v) => {
            lemma_apply_killstreak_tier(rt_state_6(r), v);
            lemma_apply_all_single(rt_state_6(r), name_killstreak_tier() + dec_u32(v as int));
            assert(p =~~= seq![name_killstreak_tier() + dec_u32(v as int)]);
        },
        None => {
            assert(p =~~= Seq::<Seq<char>>::empty());
        },
    }
}

/// Dispatching the first 8 canonical segments builds the stage-8
/// record.
proof fn lemma_rt_stage_8(r: SKU)
    requires
        r.wf(),
    ensures
        apply_all(rt_state_0(r), rt_chain_8(r).skip(2)) == Ok::<SKU, ParseErrorModel>(
            rt_state_8(r),
        ),
{
    let s0 = rt_state_0(r);
    let p = flag_tok(name_festive(), r.festivized);
    lemma_rt_stage_7(r);
    assert(rt_chain_8(r).skip(2) =~~= rt_chain_7(r).skip(2) + p);
    lemma_apply_all_concat(s0, rt_chain_7(r).skip(2), p);
    if r.festivized {
        lemma_apply_festive(rt_state_7(r));
        lemma_apply_all_single(rt_state_7(r), name_festive());
        assert(p =~~= seq![name_festive()]);
    } else {
        assert(p =~~= Seq::<Seq<char>>::empty());
    }
}

/// Dispatching the first 9 canonical segments builds the stage-9
/// record.
proof fn lemma_rt_stage_9(r: SKU)
    requires
        r.wf(),
    ensures
        apply_all(rt_state_0(r), rt_chain_9(r).skip(2)) == Ok::<SKU, ParseErrorModel>(
            rt_state_9(r),
        ),
{
    let s0 = rt_state_0(r);
    let p = opt_tok(name_crate_number(), r.crate_number);
    lemma_rt_stage_8(r);
    assert(rt_chain_9(r).skip(2) =~~= rt_chain_8(r).skip(2) + p);
    lemma_apply_all_concat(s0, rt_chain_8(r).skip(2), p);
    match r.crate_number {
        Some(v) => {
            lemma_apply_crate_number(rt_state_8(r), v);
            lemma_apply_all_single(rt_state_8(r), name_crate_number() + dec_u32(v as int));
            assert(p =~~= seq![name_crate_number() + dec_u32(v as int)]);
        },
        None => {
            assert(p =~~= Seq::<Seq<char>>::empty());
        },
    }
}

/// Dispatching the first 10 canonical segments builds the stage-10
/// record.
proof fn lemma_rt_stage_10(r: SKU)
    requires
        r.wf(),
    ensures
        apply_all(rt_state_0(r), rt_chain_10(r).skip(2)) == Ok::<SKU, ParseErrorModel>(
            rt_state_10(r),
        ),
{
    let s0 = rt_state_0(r);
    let p = opt_tok(name_craft_number(), r.craft_number);
    lemma_rt_stage_9(r);
    assert(rt_chain_10(r).skip(2) =~~= rt_chain_9(r).skip(2) + p);
    lemma_apply_all_concat(s0, rt_chain_9(r).skip(2), p);
    match r.craft_number {
        Some(v) => {
            lemma_apply_craft_number(rt_state_9(r), v);
            lemma_apply_all_single(rt_state_9(r), name_craft_number() + dec_u32(v as int));
            assert(p =~~= seq![name_craft_number() + dec_u32(v as int)]);
        },
        None => {
            assert(p =~~= Seq::<Seq<char>>::empty());
        },
    }
}

/// Dispatching the first 11 canonical segments builds the stage-11
/// record.
proof fn lemma_rt_stage_11(r: SKU)
    requires
        r.wf(),
    ensures
        apply_all(rt_state_0(r), rt_chain_11(r).skip(2)) == Ok::<SKU, ParseErrorModel>(
            rt_state_11(r),
        ),
{
    let s0 = rt_state_0(r);
    let p = opt_tok(name_target_defindex(), r.target_defindex);
    lemma_rt_stage_10(r);
    assert(rt_chain_11(r).skip(2) =~~= rt_chain_10(r).skip(2) + p);
    lemma_apply_all_concat(s0, rt_chain_10(r).skip(2), p);
    match r.target_defindex {
        Some(v) => {
            lemma_apply_target_defindex(rt_state_10(r), v);
            lemma_apply_all_single(rt_state_10(r), name_target_defindex() + dec_u32(v as int));
            assert(p =~~= seq![name_target_defindex() + dec_u32(v as int)]);
        },
        None => {
            assert(p =~~= Seq::<Seq<char>>::empty());
        },
    }
}

/// Dispatching the first 12 canonical segments builds the stage-12
/// record.
proof fn lemma_rt_stage_12(r: SKU)
    requires
        r.wf(),
    ensures
        apply_all(rt_state_0(r), rt_chain_12(r).skip(2)) == Ok::<SKU, ParseErrorModel>(
            rt_state_12(r),
        ),
{
    let s0 = rt_state_0(r);
    let p = opt_tok(name_output_defindex(), r.output_defindex);
    lemma_rt_stage_11(r);
    assert(rt_chain_12(r).skip(2) =~~= rt_chain_11(r).skip(2) + p);
    lemma_apply_all_concat(s0, rt_chain_11(r).skip(2), p);
    match r.output_defindex {
        Some(v) => {
            lemma_apply_output_defindex(rt_state_11(r), v);
            lemma_apply_all_single(rt_state_11(r), name_output_defindex() + dec_u32(v as int));
            assert(p =~~= seq![name_output_defindex() + dec_u32(v as int)]);
        },
        None => {
            assert(p =~~= Seq::<Seq<char>>::empty());
        },
    }
}

/// Dispatching the first 13 canonical segments builds the stage-13
/// record.
proof fn lemma_rt_stage_13(r: SKU)
    requires
        r.wf(),
    ensures
        apply_all(rt_state_0(r), rt_chain_13(r).skip(2)) == Ok::<SKU, ParseErrorModel>(
            rt_state_13(r),
        ),
{
    let s0 = rt_state_0(r);
    let p = opt_tok(name_output_quality(), r.output_quality);
    lemma_rt_stage_12(r);
    assert(rt_chain_13(r).skip(2) =~~= rt_chain_12(r).skip(2) + p);
    lemma_apply_all_concat(s0, rt_chain_12(r).skip(2), p);
    match r.output_quality {
        Some(v) => {
            lemma_apply_output_quality(rt_state_12(r), v);
            lemma_apply_all_single(rt_state_12(r), name_output_quality() + dec_u32(v as int));
            assert(p =~~= seq![name_output_quality() + dec_u32(v as int)]);
        },
        None => {
            assert(p =~~= Seq::<Seq<char>>::empty());
        },
    }
}

/// Dispatching the first 14 canonical segments builds the stage-14
/// record.
proof fn lemma_rt_stage_14(r: SKU)
    requires
        r.wf(),
    ensures
        apply_all(rt_state_0(r), rt_chain_14(r).skip(2)) == Ok::<SKU, ParseErrorModel>(
            rt_state_14(r),
        ),
{
    let s0 = rt_state_0(r);
    let p = opt_tok(name_paint(), r.paint);
    lemma_rt_stage_13(r);
    assert(rt_chain_14(r).skip(2) =~~= rt_chain_13(r).skip(2) + p);
    lemma_apply_all_concat(s0, rt_chain_13(r).skip(2), p);
    match r.paint {
        Some(v) => {
            lemma_apply_paint(rt_state_13(r), v);
            lemma_apply_all_single(rt_state_13(r), name_paint() + dec_u32(v as int));
            assert(p =~~= seq![name_paint() + dec_u32(v as int)]);
        },
        None => {
            assert(p =~~= Seq::<Seq<char>>::empty());
        },
    }
}

/// Dispatching the first 15 canonical segments builds the stage-15
/// record.
proof fn lemma_rt_stage_15(r: SKU)
    requires
        r.wf(),
    ensures
        apply_all(rt_state_0(r), rt_chain_15(r).skip(2)) == Ok::<SKU, ParseErrorModel>(
            rt_state_15(r),
        ),
{
    let s0 = rt_state_0(r);
    let p = opt_tok(name_sheen(), r.sheen);
    lemma_rt_stage_14(r);
    assert(rt_chain_15(r).skip(2) =~~= rt_chain_14(r).skip(2) + p);
    lemma_apply_all_concat(s0, rt_chain_14(r).skip(2), p);
    match r.sheen {
        Some(v) => {
            lemma_apply_sheen(rt_state_14(r), v);
            lemma_apply_all_single(rt_state_14(r), name_sheen() + dec_u32(v as int));
            assert(p =~~= seq![name_sheen() + dec_u32(v as int)]);
        },
        None => {
            assert(p =~~= Seq::<Seq<char>>::empty());
        },
    }
}

/// Dispatching the first 16 canonical segments builds the stage-16
/// record.
proof fn lemma_rt_stage_16(r: SKU)
    requires
        r.wf(),
    ensures
        apply_all(rt_state_0(r), rt_chain_16(r).skip(2)) == Ok::<SKU, ParseErrorModel>(
            rt_state_16(r),
        ),
{
    let s0 = rt_state_0(r);
    let p = opt_tok(name_killstreaker(), r.killstreaker);
    lemma_rt_stage_15(r);
    assert(rt_chain_16(r).skip(2) =~~= rt_chain_15(r).skip(2) + p);
    lemma_apply_all_concat(s0, rt_chain_15(r).skip(2), p);
    match r.killstreaker {
        Some(v) => {
            lemma_apply_killstreaker(rt_state_15(r), v);
            lemma_apply_all_single(rt_state_15(r), name_killstreaker() + dec_u32(v as int));
            assert(p =~~= seq![name_killstreaker() + dec_u32(v as int)]);
        },
        None => {
            assert(p =~~= Seq::<Seq<char>>::empty());
        },
    }
}

/// The base of the stage chain: no segments dispatched yet.
proof fn lemma_rt_stage_0(r: SKU)
    requires
        r.wf(),
    ensures
        apply_all(rt_state_0(r), rt_chain_0(r).skip(2)) == Ok::<SKU, ParseErrorModel>(
            rt_state_0(r),
        ),
{
    assert(rt_chain_0(r).skip(2) =~~= Seq::<Seq<char>>::empty());
}

/// The full stage chain is exactly the SKU's canonical token list.
proof fn lemma_rt_chain_is_tokens(r: SKU)
    ensures
        rt_chain_16(r) == sku_tokens(r),
{
}

/// Dispatching every canonical segment rebuilds the SKU itself.
#[verifier::rlimit(100)]
proof fn lemma_rt_state_is_r(r: SKU)
    ensures
        rt_state_16(r) == r,
{
}

/// The two mandatory tokens stand first in the canonical token list.
proof fn lemma_rt_tokens_head(r: SKU)
    ensures
        sku_tokens(r).len() >= 2,
        sku_tokens(r)[0] == dec_i32(r.defindex as int),
        sku_tokens(r)[1] == dec_u32(r.quality as int),
{
    lemma_rt_chain_is_tokens(r);
    assert(rt_chain_0(r).len() == 2);
    assert(rt_chain_1(r).len() >= 2);
    assert(rt_chain_1(r)[0] == rt_chain_0(r)[0]);
    assert(rt_chain_1(r)[1] == rt_chain_0(r)[1]);
    assert(rt_chain_2(r).len() >= 2);
    assert(rt_chain_2(r)[0] == rt_chain_1(r)[0]);
    assert(rt_chain_2(r)[1] == rt_chain_1(r)[1]);
    assert(rt_chain_3(r).len() >= 2);
    assert(rt_chain_3(r)[0] == rt_chain_2(r)[0]);
    assert(rt_chain_3(r)[1] == rt_chain_2(r)[1]);
    assert(rt_chain_4(r).len() >= 2);
    assert(rt_chain_4(r)[0] == rt_chain_3(r)[0]);
    assert(rt_chain_4(r)[1] == rt_chain_3(r)[1]);
    assert(rt_chain_5(r).len() >= 2);
    assert(rt_chain_5(r)[0] == rt_chain_4(r)[0]);
    assert(rt_chain_5(r)[1] == rt_chain_4(r)[1]);
    assert(rt_chain_6(r).len() >= 2);
    assert(rt_chain_6(r)[0] == rt_chain_5(r)[0]);
    assert(rt_chain_6(r)[1] == rt_chain_5(r)[1]);
    assert(rt_chain_7(r).len() >= 2);
    assert(rt_chain_7(r)[0] == rt_chain_6(r)[0]);
    assert(rt_chain_7(r)[1] == rt_chain_6(r)[1]);
    assert(rt_chain_8(r).len() >= 2);
    assert(rt_chain_8(r)[0] == rt_chain_7(r)[0]);
    assert(rt_chain_8(r)[1] == rt_chain_7(r)[1]);
    assert(rt_chain_9(r).len() >= 2);
    assert(rt_chain_9(r)[0] == rt_chain_8(r)[0]);
    assert(rt_chain_9(r)[1] == rt_chain_8(r)[1]);
    assert(rt_chain_10(r).len() >= 2);
    assert(rt_chain_10(r)[0] == rt_chain_9(r)[0]);
    assert(rt_chain_10(r)[1] == rt_chain_9(r)[1]);
    assert(rt_chain_11(r).len() >= 2);
    assert(rt_chain_11(r)[0] == rt_chain_10(r)[0]);
    assert(rt_chain_11(r)[1] == rt_chain_10(r)[1]);
    assert(rt_chain_12(r).len() >= 2);
    assert(rt_chain_12(r)[0] == rt_chain_11(r)[0]);
    assert(rt_chain_12(r)[1] == rt_chain_11(r)[1]);
    assert(rt_chain_13(r).len() >= 2);
    assert(rt_chain_13(r)[0] == rt_chain_12(r)[0]);
    assert(rt_chain_13(r)[1] == rt_chain_12(r)[1]);
    assert(rt_chain_14(r).len() >= 2);
    assert(rt_chain_14(r)[0] == rt_chain_13(r)[0]);
    assert(rt_chain_14(r)[1] == rt_chain_13(r)[1]);
    assert(rt_chain_15(r).len() >= 2);
    assert(rt_chain_15(r)[0] == rt_chain_14(r)[0]);
    assert(rt_chain_15(r)[1] == rt_chain_14(r)[1]);
    assert(rt_chain_16(r).len() >= 2);
    assert(rt_chain_16(r)[0] == rt_chain_15(r)[0]);
    assert(rt_chain_16(r)[1] == rt_chain_15(r)[1]);
}

/// **Round-trip.** Strict decoding of a well-formed SKU's canonical string
/// succeeds and gives back exactly that SKU — so formatting any record
/// produced by strict decoding of a canonical string reproduces the
/// original string byte for byte.
pub proof fn lemma_round_trip(r: SKU)
    requires
        r.wf(),
    ensures
        decode_strict_spec(format_spec(r)) == Ok::<SKU, ParseErrorModel>(r),
{
    lemma_format_tokens(r);
    lemma_parse_dec_i32(r.defindex as int);
    lemma_parse_dec_u32(r.quality as int);
    lemma_rt_tokens_head(r);
    lemma_rt_stage_16(r);
    lemma_rt_chain_is_tokens(r);
    lemma_rt_state_is_r(r);
    assert(tokenize_spec(format_spec(r)) == sku_tokens(r));
    assert(apply_all(SKU::new_spec(r.defindex, r.quality), sku_tokens(r).skip(2))
        == Ok::<SKU, ParseErrorModel>(r));
}

/// **Tolerance.** A token whose name is not recognized never fails and
/// never changes the record, in strict and lossy decoding alike.
pub proof fn lemma_unknown_token_ignored(r: SKU, t: Seq<char>)
    requires
        !known_name(elem_name(t)),
    ensures
        apply_element_spec(r, t) == Ok::<SKU, ParseErrorModel>(r),
{
}

/// **Multi-byte safety.** A `u`-prefixed token holding any non-digit after
/// the prefix — a multi-byte character among them — never produces a
/// particle value and never fails: the digit scan stops at the non-digit,
/// so the name is no longer bare `u`.
pub proof fn lemma_stray_text_sets_no_particle(r: SKU, t: Seq<char>, i: int)
    requires
        t.len() >= 1,
        t[0] == 'u',
        1 <= i < t.len(),
        !is_digit_char(t[i]),
    ensures
        apply_element_spec(r, t) matches Ok(r2) && r2.particle == r.particle,
{
    lemma_digit_suffix(t);
    let k = digit_suffix_len(t);
    assert(i < t.len() - k);
    let name = elem_name(t);
    assert(name.len() == t.len() - k >= 2);
    assert(name[0] == t[0]);
}

/// Dispatching one token preserves well-formedness: every code it stores
/// was checked against its domain first.
proof fn lemma_apply_element_wf(r: SKU, t: Seq<char>)
    requires
        r.wf(),
    ensures
        apply_element_spec(r, t) matches Ok(r2) ==> r2.wf(),
{
}

/// Dispatching any token list preserves well-formedness.
proof fn lemma_apply_all_wf(r: SKU, ts: Seq<Seq<char>>)
    requires
        r.wf(),
    ensures
        apply_all(r, ts) matches Ok(k) ==> k.wf(),
    decreases ts.len(),
{
    if ts.len() > 0 {
        lemma_apply_element_wf(r, ts[0]);
        match apply_element_spec(r, ts[0]) {
            Ok(r2) => {
                lemma_apply_all_wf(r2, ts.skip(1));
            },
            Err(_) => {},
        }
    }
}

/// Every record strict decoding produces is well-formed: its quality code
/// and every optional code it holds are recognized by their domains.
pub proof fn lemma_decode_strict_wf(s: Seq<char>)
    ensures
        decode_strict_spec(s) matches Ok(k) ==> k.wf(),
{
    let toks = tokenize_spec(s);
    if toks.len() >= 2 {
        match parse_i32_spec(toks[0]) {
            Ok(d) => {
                match parse_u32_spec(toks[1]) {
                    Ok(q) => {
                        if quality_code_ok(q) {
                            assert(SKU::new_spec(d, q).wf());
                            lemma_apply_all_wf(SKU::new_spec(d, q), toks.skip(2));
                        }
                    },
                    Err(_) => {},
                }
            },
            Err(_) => {},
        }
    }
}

/// **Field-order determinism.** The canonical string is a function of the
/// attribute set alone: two records with the same attributes format
/// byte-identically, whatever order their fields were assigned in.
pub proof fn lemma_format_deterministic(a: SKU, b: SKU)
    requires
        a == b,
    ensures
        format_spec(a) == format_spec(b),
{
}

} // verus!
