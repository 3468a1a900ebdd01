//! The Record: a SKU's full attribute set, and its canonical formatter.
//!
//! Enum-valued attributes (quality, wear, paint, killstreak tier, sheen,
//! killstreaker) are carried as their `u32` numeric codes; which codes are
//! valid is decided by the `tf2_enum` crate (see [`crate::codes`]). A
//! well-formed SKU holds only valid codes, and the decoder only produces
//! well-formed SKUs.

use vstd::prelude::*;
use vstd::string::StringExecFns;
use crate::codes::{
    killstreak_tier_code_ok, killstreaker_code_ok, paint_code_ok, quality_code_ok, sheen_code_ok,
    wear_code_ok,
};
use crate::digits::{dec_i32, dec_u32, push_dec_i32, push_dec_u32};
use crate::tokens::{join_semi, lemma_join_push};

verus! {

/// A SKU: one item's full attribute set.
#[derive(Debug, Clone, Copy, PartialEq, Eq, Hash, Structural)]
pub struct SKU {
    /// The base item type. Can be negative to refer to items that are not
    /// defined in the schema e.g. "Random Craft Hat".
    pub defindex: i32,
    /// The quality code; always present.
    pub quality: u32,
    pub craftable: bool,
    pub australium: bool,
    pub strange: bool,
    pub festivized: bool,
    pub particle: Option<u32>,
    pub skin: Option<u32>,
    /// A killstreak tier code.
    pub killstreak_tier: Option<u32>,
    /// A wear code.
    pub wear: Option<u32>,
    pub target_defindex: Option<u32>,
    pub output_defindex: Option<u32>,
    /// A quality code.
    pub output_quality: Option<u32>,
    pub craft_number: Option<u32>,
    pub crate_number: Option<u32>,
    /// A paint code.
    pub paint: Option<u32>,
    /// A sheen code.
    pub sheen: Option<u32>,
    /// A killstreaker code.
    pub killstreaker: Option<u32>,
}

/// The token name of each attribute, as written in a SKU string.
pub open spec fn name_particle() -> Seq<char> {
    seq!['u']
}

pub open spec fn name_wear() -> Seq<char> {
    seq!['w']
}

pub open spec fn name_craft_number() -> Seq<char> {
    seq!['n']
}

pub open spec fn name_crate_number() -> Seq<char> {
    seq!['c']
}

pub open spec fn name_paint() -> Seq<char> {
    seq!['p']
}

pub open spec fn name_skin() -> Seq<char> {
    seq!['p', 'k']
}

pub open spec fn name_killstreak_tier() -> Seq<char> {
    seq!['k', 't', '-']
}

pub open spec fn name_target_defindex() -> Seq<char> {
    seq!['t', 'd', '-']
}

pub open spec fn name_output_defindex() -> Seq<char> {
    seq!['o', 'd', '-']
}

pub open spec fn name_output_quality() -> Seq<char> {
    seq!['o', 'q', '-']
}

pub open spec fn name_sheen() -> Seq<char> {
    seq!['k', 's', '-']
}

pub open spec fn name_killstreaker() -> Seq<char> {
    seq!['k', 'e', '-']
}

pub open spec fn name_uncraftable() -> Seq<char> {
    seq!['u', 'n', 'c', 'r', 'a', 'f', 't', 'a', 'b', 'l', 'e']
}

pub open spec fn name_australium() -> Seq<char> {
    seq!['a', 'u', 's', 't', 'r', 'a', 'l', 'i', 'u', 'm']
}

pub open spec fn name_strange() -> Seq<char> {
    seq!['s', 't', 'r', 'a', 'n', 'g', 'e']
}

pub open spec fn name_festive() -> Seq<char> {
    seq!['f', 'e', 's', 't', 'i', 'v', 'e']
}

impl SKU {
    /// Every enum-coded field holds a code that its domain recognizes.
    pub open spec fn wf(self) -> bool {
        &&& quality_code_ok(self.quality)
        &&& match self.wear {
            Some(w) => wear_code_ok(w),
            None => true,
        }
        &&& match self.paint {
            Some(p) => paint_code_ok(p),
            None => true,
        }
        &&& match self.killstreak_tier {
            Some(t) => killstreak_tier_code_ok(t),
            None => true,
        }
        &&& match self.sheen {
            Some(x) => sheen_code_ok(x),
            None => true,
        }
        &&& match self.killstreaker {
            Some(x) => killstreaker_code_ok(x),
            None => true,
        }
        &&& match self.output_quality {
            Some(q) => quality_code_ok(q),
            None => true,
        }
    }

    /// The default SKU: defindex 0, quality code 0 (Normal), craftable,
    /// no flags, no optional attributes.
    pub open spec fn default_spec() -> SKU {
        SKU {
            defindex: 0,
            quality: 0,
            craftable: true,
            australium: false,
            strange: false,
            festivized: false,
            particle: None,
            skin: None,
            killstreak_tier: None,
            wear: None,
            target_defindex: None,
            output_defindex: None,
            output_quality: None,
            craft_number: None,
            crate_number: None,
            paint: None,
            sheen: None,
            killstreaker: None,
        }
    }

    /// The SKU with the given defindex and quality code and everything else
    /// defaulted.
    pub open spec fn new_spec(defindex: i32, quality: u32) -> SKU {
        SKU { defindex, quality, ..SKU::default_spec() }
    }

    /// Creates a new SKU using the given `defindex` and `quality` code. All
    /// `Option` fields will be `None`, and all `bool` fields will be `false`,
    /// with the exception of craftable, which is `true`.
    pub fn new(defindex: i32, quality: u32) -> (r: Self)
        ensures
            r == SKU::new_spec(defindex, quality),
    {
        SKU {
            defindex,
            quality,
            craftable: true,
            australium: false,
            strange: false,
            festivized: false,
            particle: None,
            skin: None,
            killstreak_tier: None,
            wear: None,
            target_defindex: None,
            output_defindex: None,
            output_quality: None,
            craft_number: None,
            crate_number: None,
            paint: None,
            sheen: None,
            killstreaker: None,
        }
    }
}

/// Creates a SKU with default values. All `Option` fields will be `None`,
/// and all `bool` fields will be `false`, with the exception of craftable,
/// which is `true`. The quality code is 0 (Normal).
impl Default for SKU {
    fn default() -> (r: Self)
        ensures
            r == SKU::default_spec(),
    {
        SKU::new(0, 0)
    }
}

/// The token of an optional plain or coded attribute: its name immediately
/// followed by the value's decimal rendering; absent when the field is.
pub open spec fn opt_tok(name: Seq<char>, v: Option<u32>) -> Seq<Seq<char>> {
    match v {
        Some(x) => seq![name + dec_u32(x as int)],
        None => seq![],
    }
}

/// The token of a flag attribute: its bare name, present when the flag is
/// set.
pub open spec fn flag_tok(name: Seq<char>, on: bool) -> Seq<Seq<char>> {
    if on {
        seq![name]
    } else {
        seq![]
    }
}

/// The token sequence of a SKU's canonical string: defindex, quality code,
/// then each present attribute in the fixed canonical order.
pub open spec fn sku_tokens(r: SKU) -> Seq<Seq<char>> {
    seq![dec_i32(r.defindex as int), dec_u32(r.quality as int)] + opt_tok(
        name_particle(),
        r.particle,
    ) + flag_tok(name_uncraftable(), !r.craftable) + flag_tok(name_australium(), r.australium)
        + flag_tok(name_strange(), r.strange) + opt_tok(name_wear(), r.wear) + opt_tok(
        name_skin(),
        r.skin,
    ) + opt_tok(name_killstreak_tier(), r.killstreak_tier) + flag_tok(
        name_festive(),
        r.festivized,
    ) + opt_tok(name_crate_number(), r.crate_number) + opt_tok(
        name_craft_number(),
        r.craft_number,
    ) + opt_tok(name_target_defindex(), r.target_defindex) + opt_tok(
        name_output_defindex(),
        r.output_defindex,
    ) + opt_tok(name_output_quality(), r.output_quality) + opt_tok(name_paint(), r.paint)
        + opt_tok(name_sheen(), r.sheen) + opt_tok(name_killstreaker(), r.killstreaker)
}

/// The canonical string of a SKU: its tokens joined with `;`.
pub open spec fn format_spec(r: SKU) -> Seq<char> {
    join_semi(sku_tokens(r))
}

/// Appends one optional valued segment (`;` + name + decimal value) to a
/// canonical string in progress, when the field is present.
fn seg_valued(
    s: &mut String,
    lit: &str,
    v: Option<u32>,
    Ghost(name): Ghost<Seq<char>>,
    Ghost(prev): Ghost<Seq<Seq<char>>>,
) -> (r: Ghost<Seq<Seq<char>>>)
    requires
        lit@ == seq![';'] + name,
        prev.len() >= 1,
        old(s)@ == join_semi(prev),
    ensures
        r@ == prev + opt_tok(name, v),
        final(s)@ == join_semi(r@),
{
    if let Some(x) = v {
        s.append(lit);
        push_dec_u32(s, x);
        proof {
            let tok = name + dec_u32(x as int);
            lemma_join_push(prev, tok);
            assert(prev.push(tok) =~~= prev + opt_tok(name, v));
            assert(s@ =~= join_semi(prev + opt_tok(name, v)));
        }
    } else {
        proof {
            assert(prev + opt_tok(name, v) =~~= prev);
        }
    }
    Ghost(prev + opt_tok(name, v))
}

/// Appends one flag segment (`;` + bare name) to a canonical string in
/// progress, when the flag is set.
fn seg_flag(
    s: &mut String,
    lit: &str,
    on: bool,
    Ghost(name): Ghost<Seq<char>>,
    Ghost(prev): Ghost<Seq<Seq<char>>>,
) -> (r: Ghost<Seq<Seq<char>>>)
    requires
        lit@ == seq![';'] + name,
        prev.len() >= 1,
        old(s)@ == join_semi(prev),
    ensures
        r@ == prev + flag_tok(name, on),
        final(s)@ == join_semi(r@),
{
    if on {
        s.append(lit);
        proof {
            lemma_join_push(prev, name);
            assert(prev.push(name) =~~= prev + flag_tok(name, on));
            assert(s@ =~= join_semi(prev + flag_tok(name, on)));
        }
    } else {
        proof {
            assert(prev + flag_tok(name, on) =~~= prev);
        }
    }
    Ghost(prev + flag_tok(name, on))
}

impl SKU {
    /// Formats the SKU's attributes into its canonical string: defindex and
    /// quality code, then each present attribute in the fixed canonical
    /// order. Two SKUs with the same attribute set always format
    /// byte-identically.
    #[verifier::rlimit(100)]
    pub fn to_sku_string(&self) -> (s: String)
        ensures
            s@ == format_spec(*self),
    {
        let mut s = String::new();
        push_dec_i32(&mut s, self.defindex);
        s.append(";");
        push_dec_u32(&mut s, self.quality);
        let ghost toks0: Seq<Seq<char>> = seq![
            dec_i32(self.defindex as int),
            dec_u32(self.quality as int),
        ];
        proof {
            reveal_strlit(";");
            assert(";"@ =~= seq![';']);
            assert(toks0.skip(1) =~~= seq![dec_u32(self.quality as int)]);
            assert(join_semi(seq![dec_u32(self.quality as int)]) == dec_u32(self.quality as int));
            assert(s@ =~= join_semi(toks0));
        }
        proof {
            reveal_strlit(";u");
            assert(";u"@ =~= seq![';'] + name_particle());
        }
        let Ghost(toks1) = seg_valued(&mut s, ";u", self.particle, Ghost(name_particle()), Ghost(toks0));
        proof {
            reveal_strlit(";uncraftable");
            assert(";uncraftable"@ =~= seq![';'] + name_uncraftable());
        }
        let Ghost(toks2) = seg_flag(&mut s, ";uncraftable", !self.craftable, Ghost(name_uncraftable()), Ghost(toks1));
        proof {
            reveal_strlit(";australium");
            assert(";australium"@ =~= seq![';'] + name_australium());
        }
        let Ghost(toks3) = seg_flag(&mut s, ";australium", self.australium, Ghost(name_australium()), Ghost(toks2));
        proof {
            reveal_strlit(";strange");
            assert(";strange"@ =~= seq![';'] + name_strange());
        }
        let Ghost(toks4) = seg_flag(&mut s, ";strange", self.strange, Ghost(name_strange()), Ghost(toks3));
        proof {
            reveal_strlit(";w");
            assert(";w"@ =~= seq![';'] + name_wear());
        }
        let Ghost(toks5) = seg_valued(&mut s, ";w", self.wear, Ghost(name_wear()), Ghost(toks4));
        proof {
            reveal_strlit(";pk");
            assert(";pk"@ =~= seq![';'] + name_skin());
        }
        let Ghost(toks6) = seg_valued(&mut s, ";pk", self.skin, Ghost(name_skin()), Ghost(toks5));
        proof {
            reveal_strlit(";kt-");
            assert(";kt-"@ =~= seq![';'] + name_killstreak_tier());
        }
        let Ghost(toks7) = seg_valued(&mut s, ";kt-", self.killstreak_tier, Ghost(name_killstreak_tier()), Ghost(toks6));
        proof {
            reveal_strlit(";festive");
            assert(";festive"@ =~= seq![';'] + name_festive());
        }
        let Ghost(toks8) = seg_flag(&mut s, ";festive", self.festivized, Ghost(name_festive()), Ghost(toks7));
        proof {
            reveal_strlit(";c");
            assert(";c"@ =~= seq![';'] + name_crate_number());
        }
        let Ghost(toks9) = seg_valued(&mut s, ";c", self.crate_number, Ghost(name_crate_number()), Ghost(toks8));
        proof {
            reveal_strlit(";n");
            assert(";n"@ =~= seq![';'] + name_craft_number());
        }
        let Ghost(toks10) = seg_valued(&mut s, ";n", self.craft_number, Ghost(name_craft_number()), Ghost(toks9));
        proof {
            reveal_strlit(";td-");
            assert(";td-"@ =~= seq![';'] + name_target_defindex());
        }
        let Ghost(toks11) = seg_valued(&mut s, ";td-", self.target_defindex, Ghost(name_target_defindex()), Ghost(toks10));
        proof {
            reveal_strlit(";od-");
            assert(";od-"@ =~= seq![';'] + name_output_defindex());
        }
        let Ghost(toks12) = seg_valued(&mut s, ";od-", self.output_defindex, Ghost(name_output_defindex()), Ghost(toks11));
        proof {
            reveal_strlit(";oq-");
            assert(";oq-"@ =~= seq![';'] + name_output_quality());
        }
        let Ghost(toks13) = seg_valued(&mut s, ";oq-", self.output_quality, Ghost(name_output_quality()), Ghost(toks12));
        proof {
            reveal_strlit(";p");
            assert(";p"@ =~= seq![';'] + name_paint());
        }
        let Ghost(toks14) = seg_valued(&mut s, ";p", self.paint, Ghost(name_paint()), Ghost(toks13));
        proof {
            reveal_strlit(";ks-");
            assert(";ks-"@ =~= seq![';'] + name_sheen());
        }
        let Ghost(toks15) = seg_valued(&mut s, ";ks-", self.sheen, Ghost(name_sheen()), Ghost(toks14));
        proof {
            reveal_strlit(";ke-");
            assert(";ke-"@ =~= seq![';'] + name_killstreaker());
        }
        let Ghost(toks16) = seg_valued(&mut s, ";ke-", self.killstreaker, Ghost(name_killstreaker()), Ghost(toks15));
        proof {
            assert(toks16 == sku_tokens(*self));
        }
        s
    }
}

/// Trait for converting to a SKU string.
pub trait SKUString {
    fn to_sku_string(&self) -> String;
}

/// This is the same as [`SKU::to_sku_string`].
impl SKUString for SKU {
    fn to_sku_string(&self) -> String {
        SKU::to_sku_string(self)
    }
}

/// This is the same as [`SKU::to_sku_string`].
impl SKUString for &SKU {
    fn to_sku_string(&self) -> String {
        SKU::to_sku_string(*self)
    }
}

} // verus!
