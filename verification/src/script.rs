//! Absorbing helper-script output into the fragment store.
//!
//! A script reports fragments on its standard output, one per line, as
//! `key=value`. The key is everything before the first `=` of the line and
//! must be non-empty; the value is everything after it, and may itself
//! contain `=`. Lines without an `=`, and lines whose key part is empty,
//! are ignored. The pairs are written into the store in the order emitted,
//! under the overwrite-wins rule, so within one output and across scripts
//! the last writer of a key wins.

use vstd::prelude::*;

use crate::errors::RenameError;
use crate::fragments::{lookup, pairs_of, store_write, Fragment, FragmentStore};
use crate::text::{chars_to_string, copy_range, string_to_chars};

verus! {

/// The key/value split of one output line: the part before the first `=`
/// and the part after it; nothing if the line has no `=`.
pub open spec fn split_kv(line: Seq<char>) -> Option<(Seq<char>, Seq<char>)>
    decreases line.len(),
{
    if line.len() == 0 {
        None
    } else if line[0] == '=' {
        Some((Seq::empty(), line.drop_first()))
    } else {
        match split_kv(line.drop_first()) {
            Some(kv) => Some((seq![line[0]] + kv.0, kv.1)),
            None => None,
        }
    }
}

/// The fragment pair one line contributes: its `key=value` split, provided
/// the key is non-empty.
pub open spec fn line_pairs(line: Seq<char>) -> Seq<(Seq<char>, Seq<char>)> {
    match split_kv(line) {
        Some(kv) => if kv.0.len() > 0 {
            seq![kv]
        } else {
            Seq::empty()
        },
        None => Seq::empty(),
    }
}

/// The fragment pairs of a whole output, given that the characters of the
/// current, still unterminated line so far are `cur`: the output is split
/// on `\n` and each line contributes via [`line_pairs`].
pub open spec fn parse_lines(s: Seq<char>, cur: Seq<char>) -> Seq<(Seq<char>, Seq<char>)>
    decreases s.len(),
{
    if s.len() == 0 {
        line_pairs(cur)
    } else if s[0] == '\n' {
        line_pairs(cur) + parse_lines(s.drop_first(), Seq::empty())
    } else {
        parse_lines(s.drop_first(), cur.push(s[0]))
    }
}

/// The fragment pairs a script output contributes, in order.
pub open spec fn output_pairs(s: Seq<char>) -> Seq<(Seq<char>, Seq<char>)> {
    parse_lines(s, Seq::empty())
}

/// Writing a pair sequence into an entry sequence, front to back, under the
/// overwrite-wins rule.
pub open spec fn apply_pairs(
    entries: Seq<(Seq<char>, Seq<char>)>,
    ps: Seq<(Seq<char>, Seq<char>)>,
) -> Seq<(Seq<char>, Seq<char>)>
    decreases ps.len(),
{
    if ps.len() == 0 {
        entries
    } else {
        apply_pairs(store_write(entries, ps[0].0, ps[0].1), ps.drop_first())
    }
}

/// The value the last pair for `k` in `ps` carries, if any pair is for `k`.
pub open spec fn last_value(ps: Seq<(Seq<char>, Seq<char>)>, k: Seq<char>) -> Option<Seq<char>>
    decreases ps.len(),
{
    if ps.len() == 0 {
        None
    } else {
        match last_value(ps.drop_first(), k) {
            Some(v) => Some(v),
            None => if ps[0].0 == k {
                Some(ps[0].1)
            } else {
                None
            },
        }
    }
}

/// After applying a pair sequence, a key holds the value of its last pair,
/// and a key no pair wrote keeps its previous value.
pub proof fn lemma_lookup_apply(
    entries: Seq<(Seq<char>, Seq<char>)>,
    ps: Seq<(Seq<char>, Seq<char>)>,
    k: Seq<char>,
)
    ensures
        lookup(apply_pairs(entries, ps), k) == match last_value(ps, k) {
            Some(v) => Some(v),
            None => lookup(entries, k),
        },
    decreases ps.len(),
{
    if ps.len() == 0 {
    } else {
        let written = store_write(entries, ps[0].0, ps[0].1);
        lemma_lookup_apply(written, ps.drop_first(), k);
        if last_value(ps.drop_first(), k) is None {
            if ps[0].0 == k {
                crate::fragments::lemma_lookup_write_same(entries, ps[0].0, ps[0].1);
            } else {
                crate::fragments::lemma_lookup_write_other(entries, ps[0].0, ps[0].1, k);
            }
        }
    }
}

/// Scripts are order-sensitive: when the outputs of two scripts both write
/// key `k`, running them in order leaves the later script's last value for
/// `k` — whichever script that is.
pub proof fn lemma_script_order(
    entries: Seq<(Seq<char>, Seq<char>)>,
    first: Seq<(Seq<char>, Seq<char>)>,
    second: Seq<(Seq<char>, Seq<char>)>,
    k: Seq<char>,
)
    requires
        last_value(second, k) is Some,
    ensures
        lookup(apply_pairs(apply_pairs(entries, first), second), k) == last_value(second, k),
{
    lemma_lookup_apply(apply_pairs(entries, first), second, k);
}

/// Extracts the `key=value` pair of one line, if it has one, and appends it
/// to `out` as a fragment.
fn push_line_pair(out: &mut Vec<Fragment>, line: &Vec<char>)
    ensures
        pairs_of(final(out)@) == pairs_of(old(out)@) + line_pairs(line@),
{
    let n = line.len();
    let mut i: usize = 0;
    while i < n && line[i] != '='
        invariant
            i <= n,
            n == line@.len(),
            forall|j: int| 0 <= j < i ==> line@[j] != '=',
        decreases n - i,
    {
        i += 1;
    }
    if i == 0 || i == n {
        // No `=`, or an empty key: the line is ignored.
        proof {
            if i == n {
                lemma_split_kv_no_eq(line@);
            } else {
                lemma_split_kv_at(line@, 0);
            }
            assert(pairs_of(out@) + line_pairs(line@) =~= pairs_of(out@));
        }
        return ;
    }
    proof {
        lemma_split_kv_at(line@, i as int);
    }
    let key_chars = copy_range(line, 0, i);
    let value_chars = copy_range(line, i + 1, n);
    let fragment = Fragment {
        key: chars_to_string(&key_chars),
        value: chars_to_string(&value_chars),
    };
    out.push(fragment);
    proof {
        assert(pairs_of(out@) =~= pairs_of(old(out)@) + line_pairs(line@));
    }
}

/// A line without `=` contributes nothing.
proof fn lemma_split_kv_no_eq(line: Seq<char>)
    requires
        forall|j: int| 0 <= j < line.len() ==> line[j] != '=',
    ensures
        split_kv(line) is None,
    decreases line.len(),
{
    if line.len() == 0 {
    } else {
        assert(line[0] != '=');
        lemma_split_kv_no_eq(line.drop_first());
    }
}

/// A line whose first `=` stands at position `i` splits into the characters
/// before it and the characters after it.
proof fn lemma_split_kv_at(line: Seq<char>, i: int)
    requires
        0 <= i < line.len(),
        line[i] == '=',
        forall|j: int| 0 <= j < i ==> line[j] != '=',
    ensures
        split_kv(line) == Some(
            (line.subrange(0, i), line.subrange(i + 1, line.len() as int)),
        ),
    decreases line.len(),
{
    if i == 0 {
        assert(line.drop_first() =~= line.subrange(1, line.len() as int));
        assert(line.subrange(0, 0) =~= Seq::<char>::empty());
    } else {
        assert(line[0] != '=');
        assert(line.drop_first()[i - 1] == line[i]);
        lemma_split_kv_at(line.drop_first(), i - 1);
        assert(seq![line[0]] + line.drop_first().subrange(0, i - 1) =~= line.subrange(0, i));
        assert(line.drop_first().subrange(i - 1 + 1, line.drop_first().len() as int)
            =~= line.subrange(i + 1, line.len() as int));
    }
}

/// Parses a captured script output into the fragment pairs it reports, in
/// emission order.
pub fn parse_script_output(output: &str) -> (r: Vec<Fragment>)
    ensures
        pairs_of(r@) == output_pairs(output@),
{
    let chars = string_to_chars(output);
    let n = chars.len();
    let mut out: Vec<Fragment> = Vec::new();
    let mut cur: Vec<char> = Vec::new();
    let mut i: usize = 0;
    proof {
        assert(chars@.skip(0) =~= chars@);
        assert(pairs_of(out@) =~= Seq::<(Seq<char>, Seq<char>)>::empty());
        assert(Seq::<(Seq<char>, Seq<char>)>::empty() + parse_lines(chars@, Seq::empty())
            =~= parse_lines(chars@, Seq::empty()));
    }
    while i < n
        invariant
            i <= n,
            n == chars@.len(),
            output_pairs(chars@) == pairs_of(out@) + parse_lines(chars@.skip(i as int), cur@),
        decreases n - i,
    {
        let c = chars[i];
        proof {
            assert(chars@.skip(i as int)[0] == chars@[i as int]);
            assert(chars@.skip(i as int).drop_first() =~= chars@.skip(i as int + 1));
        }
        if c == '\n' {
            push_line_pair(&mut out, &cur);
            cur = Vec::new();
            proof {
                assert(pairs_of(out@) + parse_lines(chars@.skip(i as int + 1), Seq::empty())
                    =~= output_pairs(chars@));
            }
        } else {
            cur.push(c);
        }
        i += 1;
    }
    proof {
        assert(chars@.skip(n as int) =~= Seq::<char>::empty());
    }
    push_line_pair(&mut out, &cur);
    proof {
        assert(pairs_of(out@) =~= output_pairs(chars@));
    }
    out
}

/// The entry sequence after an output's pairs are folded in.
pub open spec fn absorbed(
    entries: Seq<(Seq<char>, Seq<char>)>,
    output: Seq<char>,
) -> Seq<(Seq<char>, Seq<char>)> {
    apply_pairs(entries, output_pairs(output))
}

/// Folds a captured script output into the store: every reported pair is
/// written in emission order. The store is untouched and the script's
/// failure is surfaced when the script exited non-zero; `script` names the
/// script for that error.
pub fn absorb_script_output(
    store: &mut FragmentStore,
    script: &String,
    exit_ok: bool,
    output: &str,
) -> (r: Result<(), RenameError>)
    requires
        old(store).wf(),
    ensures
        final(store).wf(),
        match r {
            Ok(()) => exit_ok && final(store)@ == absorbed(old(store)@, output@),
            Err(e) => !exit_ok && *final(store) == *old(store) && (e matches
            RenameError::ScriptExecutionFailed(s) && s@ == script@),
        },
{
    if !exit_ok {
        return Err(RenameError::ScriptExecutionFailed(script.clone()));
    }
    let fragments = parse_script_output(output);
    let n = fragments.len();
    let mut i: usize = 0;
    proof {
        assert(pairs_of(fragments@).skip(0) =~= pairs_of(fragments@));
    }
    while i < n
        invariant
            i <= n,
            n == fragments@.len(),
            store.wf(),
            absorbed(old(store)@, output@) == apply_pairs(
                store@,
                pairs_of(fragments@).skip(i as int),
            ),
        decreases n - i,
    {
        let fragment = &fragments[i];
        proof {
            assert(pairs_of(fragments@).skip(i as int)[0] == fragments@[i as int]@);
            assert(pairs_of(fragments@).skip(i as int).drop_first() =~= pairs_of(
                fragments@,
            ).skip(i as int + 1));
        }
        store.set(fragment.key.clone(), fragment.value.clone());
        i += 1;
    }
    proof {
        assert(pairs_of(fragments@).skip(n as int) =~= Seq::<(Seq<char>, Seq<char>)>::empty());
    }
    Ok(())
}

} // verus!
