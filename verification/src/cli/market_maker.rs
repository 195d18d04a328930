//! The market maker command: its arguments, and the accounts it subscribes
//! to.
use vstd::prelude::*;
use crate::address::Address;
use crate::cli::command::CliCommand;
use crate::cli::{not_recognized, rejected, unrecognized, CliError};
use crate::common::info::{accounts_of, ContextInfo};

verus! {

/// The arguments given to the `market-maker` command: the name of its
/// subcommand (`None` when none was given) and the values given to it.
pub struct MarketMakerMatches {
    pub subcommand: Option<String>,
    pub config: Option<String>,
}

/// The message when the config path is missing.
pub const CONFIG_MISSING: &'static str = "Path to config path not provided.";
/// The message when no subcommand is given.
pub const NO_SUBCOMMAND: &'static str = "No market maker subcommand given.";

/// The outcome of parsing the arguments of the `market-maker` command.
pub open spec fn market_maker_outcome(m: MarketMakerMatches, r: Result<CliCommand, CliError>) -> bool {
    match m.subcommand {
        None => unrecognized(r, NO_SUBCOMMAND@),
        Some(_) => match m.config {
            None => rejected(r, CONFIG_MISSING@),
            Some(c) => r matches Ok(CliCommand::MarketMaker { path }) && path@ == c@,
        },
    }
}

/// Parses the arguments of the `market-maker` command. The subcommand, when
/// given, is `run`.
pub fn parse_market_maker_command(matches: &MarketMakerMatches) -> (r: Result<CliCommand, CliError>)
    requires
        matches.subcommand matches Some(name) ==> name@ == "run"@,
    ensures
        market_maker_outcome(*matches, r),
{
    if matches.subcommand.is_none() {
        return Err(not_recognized(NO_SUBCOMMAND));
    }
    match &matches.config {
        Some(c) => Ok(CliCommand::MarketMaker { path: c.clone() }),
        None => Err(crate::cli::bad_parameters(CONFIG_MISSING)),
    }
}

/// The order of addresses: by their bytes, first byte first (the words are
/// big-endian, so this is the order of the words, first word first).
pub open spec fn addr_lt(a: Address, b: Address) -> bool {
    a.w0 < b.w0 || (a.w0 == b.w0 && (a.w1 < b.w1 || (a.w1 == b.w1 && (a.w2 < b.w2 || (a.w2
        == b.w2 && a.w3 < b.w3)))))
}

/// Each address comes before the next, so none occurs twice.
pub open spec fn strictly_sorted(s: Seq<Address>) -> bool {
    forall|i: int, j: int| 0 <= i < j < s.len() ==> addr_lt(#[trigger] s[i], #[trigger] s[j])
}

/// Whether `a` comes before `b`.
pub fn addr_less(a: &Address, b: &Address) -> (r: bool)
    ensures
        r == addr_lt(*a, *b),
{
    a.w0 < b.w0 || (a.w0 == b.w0 && (a.w1 < b.w1 || (a.w1 == b.w1 && (a.w2 < b.w2 || (a.w2
        == b.w2 && a.w3 < b.w3)))))
}

proof fn lemma_insert_contains(s: Seq<Address>, k: int, a: Address)
    requires
        0 <= k <= s.len(),
    ensures
        forall|x: Address| #[trigger] s.insert(k, a).contains(x) <==> (s.contains(x) || x == a),
{
    let t = s.insert(k, a);
    assert forall|x: Address| #[trigger] t.contains(x) implies (s.contains(x) || x == a) by {
        let i = choose|i: int| 0 <= i < t.len() && t[i] == x;
        if i < k {
            assert(s[i] == x);
        } else if i > k {
            assert(s[i - 1] == x);
        }
    }
    assert forall|x: Address| (s.contains(x) || x == a) implies #[trigger] t.contains(x) by {
        if x == a {
            assert(t[k] == a);
        } else {
            let i = choose|i: int| 0 <= i < s.len() && s[i] == x;
            if i < k {
                assert(t[i] == x);
            } else {
                assert(t[i + 1] == x);
            }
        }
    }
}

/// Adds an address to a strictly sorted list, where it is not there yet.
fn insert_sorted(out: &mut Vec<Address>, a: Address)
    requires
        strictly_sorted(old(out)@),
    ensures
        strictly_sorted(final(out)@),
        forall|x: Address| #[trigger] final(out)@.contains(x) <==> (old(out)@.contains(x) || x == a),
{
    let mut k: usize = 0;
    while k < out.len() && addr_less(&out[k], &a)
        invariant
            k <= out.len(),
            strictly_sorted(out@),
            forall|j: int| 0 <= j < k ==> addr_lt(#[trigger] out@[j], a),
        decreases out.len() - k,
    {
        k = k + 1;
    }
    if k < out.len() && out[k] == a {
        return;
    }
    proof {
        lemma_insert_contains(out@, k as int, a);
    }
    out.insert(k, a);
}

/// The addresses of a list, in order and each once.
pub fn sorted_distinct(accounts: &Vec<Address>) -> (r: Vec<Address>)
    ensures
        strictly_sorted(r@),
        forall|x: Address| #[trigger] r@.contains(x) <==> accounts@.contains(x),
{
    let mut out: Vec<Address> = Vec::new();
    for i in 0..accounts.len()
        invariant
            strictly_sorted(out@),
            forall|x: Address| #[trigger] out@.contains(x) <==> accounts@.take(i as int).contains(x),
    {
        proof {
            lemma_insert_contains(accounts@.take(i as int), i as int, accounts@[i as int]);
            assert(accounts@.take(i as int).insert(i as int, accounts@[i as int]) =~= accounts@.take(i + 1));
        }
        insert_sorted(&mut out, accounts[i]);
    }
    proof {
        assert(accounts@.take(accounts@.len() as int) =~= accounts@);
    }
    out
}

/// The accounts the market maker subscribes to: those of the maker's and of
/// the hedger's market, the cache account and the user's account and
/// sub-account, in order and each once.
pub fn subscription_accounts(
    maker: &ContextInfo,
    hedger: &ContextInfo,
    cache: Address,
    master_account: Address,
    sub_account: Address,
) -> (r: Vec<Address>)
    ensures
        strictly_sorted(r@),
        forall|x: Address| #[trigger] r@.contains(x) <==> (
            accounts_of(&maker.context_accounts).contains(x)
            || accounts_of(&hedger.context_accounts).contains(x)
            || x == cache || x == master_account || x == sub_account),
{
    let mut all = maker.context_accounts();
    let mut more = hedger.context_accounts();
    let ghost a = all@;
    let ghost b = more@;
    all.append(&mut more);
    all.push(cache);
    all.push(master_account);
    all.push(sub_account);
    proof {
        let whole = a + b + seq![cache, master_account, sub_account];
        assert(all@ =~= whole);
        assert forall|x: Address| #[trigger] whole.contains(x) <==> (a.contains(x) || b.contains(x)
            || x == cache || x == master_account || x == sub_account) by {
            if whole.contains(x) {
                let i = choose|i: int| 0 <= i < whole.len() && whole[i] == x;
                if i < a.len() {
                    assert(a[i] == x);
                } else if i < a.len() + b.len() {
                    assert(b[i - a.len()] == x);
                }
            }
            if a.contains(x) {
                let i = choose|i: int| 0 <= i < a.len() && a[i] == x;
                assert(whole[i] == x);
            }
            if b.contains(x) {
                let i = choose|i: int| 0 <= i < b.len() && b[i] == x;
                assert(whole[a.len() + i] == x);
            }
            if x == cache {
                assert(whole[(a.len() + b.len()) as int] == x);
            }
            if x == master_account {
                assert(whole[(a.len() + b.len() + 1) as int] == x);
            }
            if x == sub_account {
                assert(whole[(a.len() + b.len() + 2) as int] == x);
            }
        }
    }
    sorted_distinct(&all)
}

} // verus!
