//! The bot-commit audit: parses the collaborator's log of commits by the
//! designated bot author and collects those whose hash the blame-ignore file
//! does not list.

use vstd::prelude::*;

use crate::history::{CommitLookup, LookupView};
use crate::report::ValidationError;
use crate::text::{find_char, spec_lines, split_first_space, split_lines, str_eq, trim_line, trimmed};

verus! {

/// `k` occurs as a hash key among the collected bot entries.
pub open spec fn key_in(s: Seq<(Seq<char>, Seq<char>)>, k: Seq<char>) -> bool {
    exists|i: int| 0 <= i < s.len() && s[i].0 == k
}

/// `h` occurs as a hash text among the valid-hash entries.
pub open spec fn hash_in_values(hs: Seq<(usize, Seq<char>)>, h: Seq<char>) -> bool {
    exists|i: int| 0 <= i < hs.len() && hs[i].1 == h
}

/// The index of the first entry keyed `k`, or `-1` if there is none.
pub open spec fn find_key(s: Seq<(Seq<char>, Seq<char>)>, k: Seq<char>) -> int
    decreases s.len(),
{
    if s.len() == 0 {
        -1
    } else if s[0].0 == k {
        0
    } else {
        let r = find_key(s.subrange(1, s.len() as int), k);
        if r < 0 {
            -1
        } else {
            1 + r
        }
    }
}

/// Binds `k` to `v`: replaces the value of the entry keyed `k`, or appends a
/// new entry — what inserting into a mapping does.
pub open spec fn upsert(
    s: Seq<(Seq<char>, Seq<char>)>,
    k: Seq<char>,
    v: Seq<char>,
) -> Seq<(Seq<char>, Seq<char>)> {
    let i = find_key(s, k);
    if i >= 0 {
        s.update(i, (k, v))
    } else {
        s.push((k, v))
    }
}

/// `find_key` points at the first entry keyed `k`, and is negative exactly
/// when no entry is keyed `k`.
pub proof fn lemma_find_key_facts(s: Seq<(Seq<char>, Seq<char>)>, k: Seq<char>)
    ensures
        (find_key(s, k) >= 0) <==> key_in(s, k),
        find_key(s, k) >= 0 ==> find_key(s, k) < s.len() && s[find_key(s, k)].0 == k,
        forall|m: int| 0 <= m < find_key(s, k) ==> s[m].0 != k,
    decreases s.len(),
{
    if s.len() > 0 && s[0].0 != k {
        let t = s.subrange(1, s.len() as int);
        lemma_find_key_facts(t, k);
        if key_in(s, k) {
            let i = choose|i: int| 0 <= i < s.len() && s[i].0 == k;
            assert(t[i - 1].0 == k);
        }
        if find_key(t, k) >= 0 {
            assert(s[1 + find_key(t, k)].0 == k);
        }
        assert forall|m: int| 0 <= m < find_key(s, k) implies s[m].0 != k by {
            if m > 0 {
                assert(t[m - 1].0 != k);
            }
        }
    }
}

/// The entries that the first `n` parsed log lines produce: each log line
/// with a space is split into hash and subject, and a hash that the file's
/// valid-hash bucket does not hold is bound to its subject.
pub open spec fn bot_entries_from(
    entries: Seq<Seq<char>>,
    hs: Seq<(usize, Seq<char>)>,
    n: int,
) -> Seq<(Seq<char>, Seq<char>)>
    decreases n,
{
    if n <= 0 {
        Seq::empty()
    } else {
        let prev = bot_entries_from(entries, hs, n - 1);
        let e = entries[n - 1];
        let i = find_char(e, ' ');
        if i < e.len() {
            let h = e.subrange(0, i);
            let subject = e.subrange(i + 1, e.len() as int);
            if !hash_in_values(hs, h) {
                upsert(prev, h, subject)
            } else {
                prev
            }
        } else {
            prev
        }
    }
}

/// The bot-audit entries produced from the collaborator's whole log output:
/// its trimmed text is split into lines and each line contributes as
/// `bot_entries_from` says.
pub open spec fn bot_entries(log: Seq<char>, hs: Seq<(usize, Seq<char>)>) -> Seq<
    (Seq<char>, Seq<char>),
> {
    bot_entries_from(
        spec_lines(trimmed(log)),
        hs,
        spec_lines(trimmed(log)).len() as int,
    )
}

/// Decides `hash_in_values`.
fn hash_among_values(valid_hashes: &Vec<(usize, String)>, h: &str) -> (r: bool)
    ensures
        r == hash_in_values(valid_hashes.deep_view(), h@),
{
    let ghost hs = valid_hashes.deep_view();
    let n: usize = valid_hashes.len();
    let mut j: usize = 0;
    while j < n
        invariant
            j <= n,
            n == valid_hashes@.len(),
            hs == valid_hashes.deep_view(),
            forall|m: int| 0 <= m < j ==> hs[m].1 != h@,
        decreases n - j,
    {
        if str_eq(valid_hashes[j].1.as_str(), h) {
            proof {
                assert(hs[j as int].1 == h@);
            }
            return true;
        }
        j = j + 1;
    }
    false
}

/// Performs `upsert` on the collected entries.
fn upsert_entry(acc: &mut Vec<(String, String)>, k: &str, v: &str)
    ensures
        final(acc).deep_view() == upsert(old(acc).deep_view(), k@, v@),
{
    let ghost s = acc.deep_view();
    proof {
        lemma_find_key_facts(s, k@);
    }
    let n: usize = acc.len();
    let mut j: usize = 0;
    while j < n
        invariant
            j <= n,
            n == acc@.len(),
            s == acc.deep_view(),
            s == old(acc).deep_view(),
            forall|m: int| 0 <= m < j ==> s[m].0 != k@,
        decreases n - j,
    {
        if str_eq(acc[j].0.as_str(), k) {
            proof {
                assert(s[j as int].0 == k@);
                assert(key_in(s, k@));
                lemma_find_key_facts(s, k@);
                let fk = find_key(s, k@);
                assert(fk >= 0);
                if fk > j {
                    assert(s[j as int].0 != k@);
                }
                if fk < j {
                    assert(s[fk].0 == k@);
                }
                assert(fk == j);
            }
            acc[j] = (k.to_owned(), v.to_owned());
            proof {
                assert(acc.deep_view() =~= s.update(j as int, (k@, v@)));
                assert(upsert(s, k@, v@) == s.update(j as int, (k@, v@)));
            }
            return ;
        }
        j = j + 1;
    }
    proof {
        assert(!key_in(s, k@));
    }
    acc.push((k.to_owned(), v.to_owned()));
    proof {
        assert(acc.deep_view() =~= s.push((k@, v@)));
    }
}

/// Walks the collaborator's log of commits by the bot author, in log order,
/// and collects `hash -> subject` for every commit whose hash the valid-hash
/// bucket does not hold. A failed log invocation is the one fatal condition:
/// no partial result is produced.
pub fn audit_bot_commits(
    bot_log: &CommitLookup,
    valid_hashes: &Vec<(usize, String)>,
) -> (r: Result<Vec<(String, String)>, ValidationError>)
    ensures
        match r {
            Ok(entries) => bot_log@ matches LookupView::Output(log) && entries.deep_view()
                == bot_entries(log, valid_hashes.deep_view()),
            Err(e) => bot_log@ is Failed && e == ValidationError::BotLookupFailed,
        },
{
    match bot_log {
        CommitLookup::Failed => Err(ValidationError::BotLookupFailed),
        CommitLookup::Output(log) => {
            let ghost hs = valid_hashes.deep_view();
            let t = trim_line(log.as_str());
            let entries = split_lines(t);
            let ghost ev = entries.deep_view();
            let n: usize = entries.len();
            let mut acc: Vec<(String, String)> = Vec::new();
            let mut k: usize = 0;
            proof {
                assert(acc.deep_view() =~= bot_entries_from(ev, hs, 0));
            }
            while k < n
                invariant
                    k <= n,
                    n == entries@.len(),
                    ev == entries.deep_view(),
                    hs == valid_hashes.deep_view(),
                    acc.deep_view() == bot_entries_from(ev, hs, k as int),
                decreases n - k,
            {
                match split_first_space(entries[k].as_str()) {
                    None => {},
                    Some((h, subject)) => {
                        if !hash_among_values(valid_hashes, h) {
                            upsert_entry(&mut acc, h, subject);
                        }
                    },
                }
                k = k + 1;
            }
            Ok(acc)
        },
    }
}

/// Every hash collected by the bot audit is absent from the valid-hash
/// bucket's values, whatever the log held.
pub proof fn lemma_bot_keys_not_listed(log: Seq<char>, hs: Seq<(usize, Seq<char>)>)
    ensures
        forall|k: Seq<char>| #[trigger]
            key_in(bot_entries(log, hs), k) ==> !hash_in_values(hs, k),
{
    let entries = spec_lines(trimmed(log));
    lemma_bot_entries_from_keys(entries, hs, entries.len() as int);
}

proof fn lemma_bot_entries_from_keys(
    entries: Seq<Seq<char>>,
    hs: Seq<(usize, Seq<char>)>,
    n: int,
)
    ensures
        forall|k: Seq<char>| #[trigger]
            key_in(bot_entries_from(entries, hs, n), k) ==> !hash_in_values(hs, k),
    decreases n,
{
    if n > 0 {
        lemma_bot_entries_from_keys(entries, hs, n - 1);
        let prev = bot_entries_from(entries, hs, n - 1);
        let cur = bot_entries_from(entries, hs, n);
        let e = entries[n - 1];
        let i = find_char(e, ' ');
        assert forall|k: Seq<char>| #[trigger]
            key_in(cur, k) implies !hash_in_values(hs, k) by {
            let j = choose|j: int| 0 <= j < cur.len() && cur[j].0 == k;
            if i < e.len() && !hash_in_values(hs, e.subrange(0, i)) {
                let h = e.subrange(0, i);
                lemma_find_key_facts(prev, h);
                let fk = find_key(prev, h);
                if fk >= 0 {
                    // replaced in place
                    if j == fk {
                        assert(cur[j].0 == h);
                    } else {
                        assert(cur[j] == prev[j]);
                        assert(key_in(prev, k));
                    }
                } else {
                    if j == cur.len() - 1 {
                        assert(cur[j].0 == h);
                    } else {
                        assert(cur[j] == prev[j]);
                        assert(key_in(prev, k));
                    }
                }
            } else {
                assert(cur[j] == prev[j]);
                assert(key_in(prev, k));
            }
        }
    }
}

} // verus!
