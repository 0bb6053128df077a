//! Population of the resource cache from a decoded document: every icon name
//! found in the document is resolved to its URL and requested once.  The
//! caller receives the URLs whose population tasks it must now schedule;
//! nothing here touches the network.

use vstd::prelude::*;
use vstd::string::*;
use crate::cache::{Cache, EntryState, spec_ensure};
use crate::urls::{icon_url, spec_icon_url};
use crate::walk::{JsonNode, collect_string_fields, spec_field_strings};

verus! {

/// What ensuring a whole list of keys, in order, does to the cache contents.
/// The second component lists the keys that were newly inserted: the ones
/// whose population task the caller now owes, each exactly once.
pub open spec fn spec_ensure_all<R>(
    m: Map<Seq<char>, EntryState<R>>,
    keys: Seq<Seq<char>>,
    i: int,
) -> (Map<Seq<char>, EntryState<R>>, Seq<Seq<char>>)
    decreases keys.len() - i,
{
    if i < 0 || i >= keys.len() {
        (m, Seq::empty())
    } else {
        let (m1, scheduled) = spec_ensure(m, keys[i]);
        let (m2, rest) = spec_ensure_all(m1, keys, i + 1);
        (m2, (if scheduled {
            seq![keys[i]]
        } else {
            Seq::empty()
        }) + rest)
    }
}

/// Law: over a whole list of requests — as many callers or a document walk
/// make them — each key's population task is scheduled exactly once.  A key
/// the cache does not know yet appears exactly once in the scheduled list
/// however often it recurs among the requests, a known key not at all; every
/// scheduled key is left `Pending`, and entries already present are
/// untouched.
pub proof fn lemma_ensure_all_schedules_each_key_once<R>(
    m: Map<Seq<char>, EntryState<R>>,
    keys: Seq<Seq<char>>,
    i: int,
)
    requires
        0 <= i <= keys.len(),
    ensures
        ({
            let (m2, sched) = spec_ensure_all(m, keys, i);
            &&& sched.no_duplicates()
            &&& forall|k: Seq<char>| #[trigger]
                sched.contains(k) ==> !m.contains_key(k) && m2.contains_key(k) && m2[k] is Pending
            &&& forall|j: int| i <= j < keys.len() ==> m2.contains_key(#[trigger] keys[j])
            &&& forall|j: int|
                i <= j < keys.len() && !m.contains_key(#[trigger] keys[j]) ==> sched.contains(
                    keys[j],
                )
            &&& forall|k: Seq<char>| #[trigger]
                m.contains_key(k) ==> m2.contains_key(k) && m2[k] == m[k]
            &&& forall|k: Seq<char>| #[trigger]
                m2.contains_key(k) ==> m.contains_key(k) || exists|j: int|
                    i <= j < keys.len() && keys[j] == k
        }),
    decreases keys.len() - i,
{
    if i < keys.len() {
        let (m1, scheduled) = spec_ensure(m, keys[i]);
        lemma_ensure_all_schedules_each_key_once(m1, keys, i + 1);
        let (m2, rest) = spec_ensure_all(m1, keys, i + 1);
        let head: Seq<Seq<char>> = if scheduled {
            seq![keys[i]]
        } else {
            Seq::empty()
        };
        let sched = head + rest;
        assert(sched.no_duplicates()) by {
            assert forall|a: int, b: int|
                0 <= a < sched.len() && 0 <= b < sched.len() && a != b implies sched[a]
                != sched[b] by {
                if scheduled {
                    if a == 0 {
                        assert(rest.contains(sched[b]) ==> !m1.contains_key(sched[b]));
                        assert(m1.contains_key(keys[i]));
                    } else if b == 0 {
                        assert(rest.contains(sched[a]) ==> !m1.contains_key(sched[a]));
                        assert(m1.contains_key(keys[i]));
                    } else {
                        assert(rest[a - 1] != rest[b - 1]);
                    }
                } else {
                    assert(rest[a] != rest[b]);
                }
            }
        }
        assert forall|k: Seq<char>| #[trigger] sched.contains(k) implies !m.contains_key(k)
            && m2.contains_key(k) && m2[k] is Pending by {
            let a = choose|a: int| 0 <= a < sched.len() && sched[a] == k;
            if scheduled && a == 0 {
                assert(!m.contains_key(k));
                assert(m1.contains_key(k) && m1[k] is Pending);
            } else {
                let b: int = if scheduled {
                    a - 1
                } else {
                    a
                };
                assert(rest[b] == k);
                assert(rest.contains(k));
            }
        }
        assert forall|j: int|
            i <= j < keys.len() && !m.contains_key(#[trigger] keys[j]) implies sched.contains(
            keys[j],
        ) by {
            if j == i {
                assert(sched[0] == keys[i]);
            } else if m1.contains_key(keys[j]) {
                assert(keys[j] == keys[i]);
                assert(sched[0] == keys[i]);
            } else {
                assert(rest.contains(keys[j]));
                let b = choose|b: int| 0 <= b < rest.len() && rest[b] == keys[j];
                assert(sched[b + head.len()] == keys[j]);
            }
        }
        assert forall|j: int| i <= j < keys.len() implies m2.contains_key(#[trigger] keys[j]) by {
            if j == i {
                assert(m1.contains_key(keys[i]));
            }
        }
        assert forall|k: Seq<char>| #[trigger] m.contains_key(k) implies m2.contains_key(k)
            && m2[k] == m[k] by {
            assert(m1.contains_key(k) && m1[k] == m[k]);
        }
    }
}

/// Requests the resource behind one icon name: derives its URL and ensures
/// it in the cache.  Returns the URL when a population task must now be
/// scheduled for it, and `None` when the key was already known.
pub fn ensure_icon<R>(cache: &mut Cache<R>, icon_name: &str) -> (to_fetch: Option<String>)
    requires
        old(cache).wf(),
    ensures
        final(cache).wf(),
        final(cache)@ == spec_ensure(old(cache)@, spec_icon_url(icon_name@)).0,
        match to_fetch {
            Some(url) => spec_ensure(old(cache)@, spec_icon_url(icon_name@)).1 && url@
                == spec_icon_url(icon_name@),
            None => !spec_ensure(old(cache)@, spec_icon_url(icon_name@)).1,
        },
{
    let url = icon_url(icon_name);
    let url_copy = url.clone();
    if cache.ensure(url) {
        Some(url_copy)
    } else {
        None
    }
}

/// Requests every icon named anywhere in `doc` (under fields called `icon`),
/// in document order.  Returns the URLs that were newly inserted, each the
/// key of exactly one population task the caller must schedule.
pub fn ensure_all_icons<R>(cache: &mut Cache<R>, doc: &JsonNode) -> (to_fetch: Vec<String>)
    requires
        old(cache).wf(),
    ensures
        final(cache).wf(),
        ({
            let icons = spec_field_strings(*doc, "icon"@).map_values(
                |s: Seq<char>| spec_icon_url(s),
            );
            let (m, scheduled) = spec_ensure_all(old(cache)@, icons, 0);
            &&& final(cache)@ == m
            &&& to_fetch@.map_values(|u: String| u@) == scheduled
        }),
{
    let name: String = String::from_str("icon");
    let names = collect_string_fields(doc, &name);
    let ghost icons = spec_field_strings(*doc, "icon"@).map_values(|s: Seq<char>| spec_icon_url(s));
    let mut out: Vec<String> = Vec::new();
    let len = names.len();
    let mut i: usize = 0;
    while i < len
        invariant
            cache.wf(),
            len == names@.len(),
            i <= len,
            names@.map_values(|s: String| s@) == spec_field_strings(*doc, "icon"@),
            icons == spec_field_strings(*doc, "icon"@).map_values(|s: Seq<char>| spec_icon_url(s)),
            ({
                let (m, scheduled) = spec_ensure_all(cache@, icons, i as int);
                &&& m == spec_ensure_all(old(cache)@, icons, 0).0
                &&& out@.map_values(|u: String| u@) + scheduled == spec_ensure_all(
                    old(cache)@,
                    icons,
                    0,
                ).1
            }),
        decreases len - i,
    {
        let ghost out_prev = out@;
        proof {
            assert(icons[i as int] == spec_icon_url(names@[i as int]@));
        }
        match ensure_icon(cache, names[i].as_str()) {
            Some(url) => {
                out.push(url);
                proof {
                    assert(out@.map_values(|u: String| u@) =~= out_prev.map_values(|u: String| u@)
                        + seq![icons[i as int]]);
                }
            },
            None => {},
        }
        i = i + 1;
        proof {
            assert(out@.map_values(|u: String| u@) + spec_ensure_all(cache@, icons, i as int).1
                =~= spec_ensure_all(old(cache)@, icons, 0).1);
        }
    }
    proof {
        assert(out@.map_values(|u: String| u@) =~= out@.map_values(|u: String| u@) + Seq::<
            Seq<char>,
        >::empty());
    }
    out
}

} // verus!
