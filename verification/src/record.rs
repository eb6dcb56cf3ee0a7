//! The unified mod record and the order of the final list.

use crate::sorting::{is_stable_sort, stable_sort, strict_weak_order};
use crate::text::{compare_text, lemma_lex_chain, lemma_lex_flip, lex_order, Order};
use vstd::prelude::*;

verus! {

/// Which runtime side needs a mod.
#[derive(Clone, Copy, Debug, PartialEq, Eq, Structural)]
pub enum Side {
    Both,
    Client,
    Server,
    Unknown,
}

/// The word that stands for a side in a record.
pub open spec fn side_label(side: Side) -> Seq<char> {
    match side {
        Side::Both => "both"@,
        Side::Client => "client"@,
        Side::Server => "server"@,
        Side::Unknown => "unknown"@,
    }
}

impl Side {
    /// The word that stands for this side in a record.
    pub fn label(self) -> (r: String)
        ensures
            r@ == side_label(self),
    {
        match self {
            Side::Both => "both".to_owned(),
            Side::Client => "client".to_owned(),
            Side::Server => "server".to_owned(),
            Side::Unknown => "unknown".to_owned(),
        }
    }
}

/// One mod of the pack, whatever source described it.
#[derive(Clone, Debug, PartialEq, Eq)]
pub struct ModpackInfo {
    pub name: String,
    pub side: String,
    pub url: String,
    pub game_versions: Vec<String>,
    pub loaders: Vec<String>,
}

/// A record as plain text.
pub struct Record {
    pub name: Seq<char>,
    pub side: Seq<char>,
    pub url: Seq<char>,
    pub game_versions: Seq<Seq<char>>,
    pub loaders: Seq<Seq<char>>,
}

/// The texts that a list of strings holds.
pub open spec fn texts(items: Seq<String>) -> Seq<Seq<char>> {
    items.map_values(|s: String| s@)
}

impl View for ModpackInfo {
    type V = Record;

    open spec fn view(&self) -> Record {
        Record {
            name: self.name@,
            side: self.side@,
            url: self.url@,
            game_versions: texts(self.game_versions@),
            loaders: texts(self.loaders@),
        }
    }
}

/// `a` stands before `b` in the final list: by name, then by side, both in
/// lexicographic order.
pub open spec fn record_before(a: Record, b: Record) -> bool {
    match lex_order(a.name, b.name) {
        Order::Less => true,
        Order::Equal => lex_order(a.side, b.side) == Order::Less,
        Order::Greater => false,
    }
}

/// `record_before` on records.
pub open spec fn record_rank() -> spec_fn(ModpackInfo, ModpackInfo) -> bool {
    |a: ModpackInfo, b: ModpackInfo| record_before(a@, b@)
}

/// The order of the final list ranks all records.
pub proof fn lemma_record_rank_is_strict_weak_order()
    ensures
        strict_weak_order(record_rank()),
{
    let lt = record_rank();
    assert forall|a: ModpackInfo, b: ModpackInfo| #[trigger] lt(a, b) implies !lt(b, a) by {
        lemma_lex_flip(a.name@, b.name@);
        lemma_lex_flip(a.side@, b.side@);
    }
    assert forall|a: ModpackInfo, b: ModpackInfo, c: ModpackInfo|
        #![trigger lt(a, b), lt(b, c)]
        lt(a, c) implies lt(a, b) || lt(b, c) by {
        if !lt(a, b) && !lt(b, c) {
            lemma_lex_flip(a.name@, b.name@);
            lemma_lex_flip(b.name@, c.name@);
            lemma_lex_flip(a.name@, c.name@);
            lemma_lex_flip(a.side@, b.side@);
            lemma_lex_flip(b.side@, c.side@);
            lemma_lex_flip(a.side@, c.side@);
            lemma_lex_chain(c.name@, b.name@, a.name@);
            if lex_order(c.name@, a.name@) == Order::Equal {
                lemma_lex_chain(c.side@, b.side@, a.side@);
            }
        }
    }
}

/// Whether `a` stands before `b` in the final list.
pub fn goes_before(a: &ModpackInfo, b: &ModpackInfo) -> (r: bool)
    ensures
        r == record_before(a@, b@),
{
    match compare_text(a.name.as_str(), b.name.as_str()) {
        Order::Less => true,
        Order::Equal => match compare_text(a.side.as_str(), b.side.as_str()) {
            Order::Less => true,
            _ => false,
        },
        Order::Greater => false,
    }
}

/// Merges the records of the three sources into the final list: ordered by
/// name, then by side, and records that agree in both in the order hosted,
/// first registry, second registry, each source in its own order.
pub fn aggregate(
    hosted: Vec<ModpackInfo>,
    modrinth: Vec<ModpackInfo>,
    curseforge: Vec<ModpackInfo>,
) -> (out: Vec<ModpackInfo>)
    ensures
        is_stable_sort(out@, hosted@ + modrinth@ + curseforge@, record_rank()),
{
    let mut all = hosted;
    let mut second = modrinth;
    let mut third = curseforge;
    all.append(&mut second);
    all.append(&mut third);
    proof {
        lemma_record_rank_is_strict_weak_order();
    }
    stable_sort(all, goes_before, Ghost(record_rank()))
}

} // verus!
