//! Rendering a format string against the fragment store.
//!
//! A template is plain text with placeholders: `{` opens a placeholder,
//! the characters up to the next `}` are the fragment key, and the
//! placeholder is replaced by that key's value. Text outside placeholders
//! passes through unchanged, a `}` outside a placeholder is literal, and a
//! `{` that is never closed is treated as a placeholder reaching to the end
//! of the template. Rendering is all-or-nothing: a placeholder whose key
//! was never written fails the whole rendering, naming that key.

use vstd::prelude::*;

use crate::errors::RenameError;
use crate::fragments::{lookup, FragmentStore};
use crate::text::{chars_to_string, push_str_chars, string_to_chars};

verus! {

/// The rendering of template text `t`, outside any placeholder: the
/// rendered characters, or the key of the first unresolvable placeholder.
pub open spec fn spec_render(
    t: Seq<char>,
    entries: Seq<(Seq<char>, Seq<char>)>,
) -> Result<Seq<char>, Seq<char>>
    decreases t.len(),
{
    if t.len() == 0 {
        Ok(Seq::empty())
    } else if t[0] == '{' {
        spec_render_ph(t.drop_first(), entries, Seq::empty())
    } else {
        match spec_render(t.drop_first(), entries) {
            Ok(rest) => Ok(seq![t[0]] + rest),
            Err(k) => Err(k),
        }
    }
}

/// The rendering of template text `t` inside a placeholder whose key so far
/// is `key`: the key ends at the next `}`, or at the end of the template.
pub open spec fn spec_render_ph(
    t: Seq<char>,
    entries: Seq<(Seq<char>, Seq<char>)>,
    key: Seq<char>,
) -> Result<Seq<char>, Seq<char>>
    decreases t.len(),
{
    if t.len() == 0 {
        match lookup(entries, key) {
            Some(v) => Ok(v),
            None => Err(key),
        }
    } else if t[0] == '}' {
        match lookup(entries, key) {
            Some(v) => match spec_render(t.drop_first(), entries) {
                Ok(rest) => Ok(v + rest),
                Err(k) => Err(k),
            },
            None => Err(key),
        }
    } else {
        spec_render_ph(t.drop_first(), entries, key.push(t[0]))
    }
}

/// The keys of the placeholders of `t`, in order of appearance.
pub open spec fn placeholders(t: Seq<char>) -> Seq<Seq<char>>
    decreases t.len(),
{
    if t.len() == 0 {
        Seq::empty()
    } else if t[0] == '{' {
        placeholders_ph(t.drop_first(), Seq::empty())
    } else {
        placeholders(t.drop_first())
    }
}

/// The keys of the placeholders of `t` inside a placeholder whose key so
/// far is `key`.
pub open spec fn placeholders_ph(t: Seq<char>, key: Seq<char>) -> Seq<Seq<char>>
    decreases t.len(),
{
    if t.len() == 0 {
        seq![key]
    } else if t[0] == '}' {
        seq![key] + placeholders(t.drop_first())
    } else {
        placeholders_ph(t.drop_first(), key.push(t[0]))
    }
}

/// Rendering succeeds exactly when every placeholder key of the template
/// resolves in the store, and a failure names a placeholder key that is
/// absent. With a fixed template and fixed fragments the result is one
/// mathematical value, so rendering is stable across invocations.
pub proof fn lemma_render_resolves(t: Seq<char>, entries: Seq<(Seq<char>, Seq<char>)>)
    ensures
        (spec_render(t, entries) is Ok) <==> (forall|i: int|
            0 <= i < placeholders(t).len() ==> lookup(
                entries,
                #[trigger] placeholders(t)[i],
            ) is Some),
        spec_render(t, entries) matches Err(k) ==> placeholders(t).contains(k) && lookup(
            entries,
            k,
        ) is None,
    decreases t.len(),
{
    if t.len() == 0 {
    } else if t[0] == '{' {
        lemma_render_resolves_ph(t.drop_first(), entries, Seq::empty());
    } else {
        lemma_render_resolves(t.drop_first(), entries);
        match spec_render(t.drop_first(), entries) {
            Err(k) => {
                let sub = placeholders(t.drop_first());
                let j = choose|j: int| 0 <= j < sub.len() && sub[j] == k;
                assert(placeholders(t)[j] == k);
            },
            Ok(_) => {},
        }
    }
}

proof fn lemma_render_resolves_ph(
    t: Seq<char>,
    entries: Seq<(Seq<char>, Seq<char>)>,
    key: Seq<char>,
)
    ensures
        (spec_render_ph(t, entries, key) is Ok) <==> (forall|i: int|
            0 <= i < placeholders_ph(t, key).len() ==> lookup(
                entries,
                #[trigger] placeholders_ph(t, key)[i],
            ) is Some),
        spec_render_ph(t, entries, key) matches Err(k) ==> placeholders_ph(t, key).contains(k)
            && lookup(entries, k) is None,
    decreases t.len(),
{
    if t.len() == 0 {
        assert(placeholders_ph(t, key)[0] == key);
    } else if t[0] == '}' {
        lemma_render_resolves(t.drop_first(), entries);
        let ph = placeholders_ph(t, key);
        let sub = placeholders(t.drop_first());
        assert(ph[0] == key);
        assert(forall|i: int| 0 <= i < sub.len() ==> ph[i + 1] == #[trigger] sub[i]);
        if lookup(entries, key) is None {
            assert(ph.contains(key));
        } else {
            match spec_render(t.drop_first(), entries) {
                Ok(_) => {
                    assert forall|i: int|
                        0 <= i < ph.len() implies lookup(entries, #[trigger] ph[i]) is Some by {
                        if i > 0 {
                            assert(ph[i] == sub[i - 1]);
                        }
                    }
                },
                Err(k) => {
                    let j = choose|j: int| 0 <= j < sub.len() && sub[j] == k;
                    assert(ph[j + 1] == k);
                    assert(ph.contains(k));
                    assert(!(forall|i: int|
                        0 <= i < ph.len() ==> lookup(entries, #[trigger] ph[i]) is Some)) by {
                        assert(lookup(entries, ph[j + 1]) is None);
                    }
                },
            }
        }
    } else {
        lemma_render_resolves_ph(t.drop_first(), entries, key.push(t[0]));
    }
}

/// Renders `template` against the store, substituting every placeholder
/// with its fragment value; literal text passes through unchanged. Fails
/// with [`RenameError::UnresolvedPlaceholder`] naming the first placeholder
/// key that was never written; no partial output is produced. Pure: the
/// store is only read.
pub fn render(template: &str, store: &FragmentStore) -> (r: Result<String, RenameError>)
    ensures
        match r {
            Ok(name) => spec_render(template@, store@) == Ok::<Seq<char>, Seq<char>>(name@),
            Err(e) => e matches RenameError::UnresolvedPlaceholder(k) && spec_render(
                template@,
                store@,
            ) == Err::<Seq<char>, Seq<char>>(k@),
        },
{
    let chars = string_to_chars(template);
    let n = chars.len();
    let mut out: Vec<char> = Vec::new();
    let mut i: usize = 0;
    proof {
        assert(chars@.skip(0) =~= chars@);
        match spec_render(chars@, store@) {
            Ok(whole) => {
                assert(Seq::<char>::empty() + whole =~= whole);
            },
            Err(_) => {},
        }
    }
    while i < n
        invariant
            i <= n,
            n == chars@.len(),
            template@ == chars@,
            match spec_render(chars@.skip(i as int), store@) {
                Ok(rest) => spec_render(chars@, store@) == Ok::<Seq<char>, Seq<char>>(
                    out@ + rest,
                ),
                Err(k) => spec_render(chars@, store@) == Err::<Seq<char>, Seq<char>>(k),
            },
        decreases n - i,
    {
        let c = chars[i];
        proof {
            assert(chars@.skip(i as int)[0] == chars@[i as int]);
            assert(chars@.skip(i as int).drop_first() =~= chars@.skip(i as int + 1));
        }
        if c == '{' {
            let mut j = i + 1;
            let mut key: Vec<char> = Vec::new();
            while j < n && chars[j] != '}'
                invariant
                    i as int + 1 <= j <= n,
                    i < n,
                    n == chars@.len(),
                    spec_render_ph(chars@.skip(i as int + 1), store@, Seq::empty())
                        == spec_render_ph(chars@.skip(j as int), store@, key@),
                decreases n - j,
            {
                proof {
                    assert(chars@.skip(j as int)[0] == chars@[j as int]);
                    assert(chars@.skip(j as int).drop_first() =~= chars@.skip(j as int + 1));
                }
                key.push(chars[j]);
                j += 1;
            }
            proof {
                if j == n {
                    assert(chars@.skip(n as int) =~= Seq::<char>::empty());
                } else {
                    assert(chars@.skip(j as int)[0] == chars@[j as int]);
                    assert(chars@.skip(j as int).drop_first() =~= chars@.skip(j as int + 1));
                }
            }
            let key_string = chars_to_string(&key);
            match store.get(&key_string) {
                Some(v) => {
                    let ghost out_before = out@;
                    push_str_chars(&mut out, v.as_str());
                    if j < n {
                        proof {
                            match spec_render(chars@.skip(j as int + 1), store@) {
                                Ok(rest) => {
                                    assert(out_before + (v@ + rest) =~= out@ + rest);
                                },
                                Err(_) => {},
                            }
                        }
                        i = j + 1;
                    } else {
                        proof {
                            assert(out_before + v@ =~= out@);
                            assert(chars@.skip(n as int) =~= Seq::<char>::empty());
                            assert(out@ + Seq::<char>::empty() =~= out@);
                        }
                        i = j;
                    }
                },
                None => {
                    return Err(RenameError::UnresolvedPlaceholder(key_string));
                },
            }
        } else {
            let ghost out_before = out@;
            out.push(c);
            proof {
                match spec_render(chars@.skip(i as int + 1), store@) {
                    Ok(rest) => {
                        assert(out_before + (seq![c] + rest) =~= out@ + rest);
                    },
                    Err(_) => {},
                }
            }
            i += 1;
        }
    }
    proof {
        assert(chars@.skip(n as int) =~= Seq::<char>::empty());
        assert(out@ + Seq::<char>::empty() =~= out@);
    }
    Ok(chars_to_string(&out))
}

} // verus!
