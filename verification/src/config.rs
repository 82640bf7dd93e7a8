//! The application's configuration file, as far as the guard reads and
//! rewrites it: lines of `key=value`, one of which may pin the version.

use crate::text::{
    from_chars, is_space, join_lines, joined, lemma_deep_view_push_chars, lemma_line_end, line_end,
    lines, lines_of, starts_with, strip_cr, to_chars, trim, trim_end, trim_start, trimmed,
};
use vstd::prelude::*;
use vstd::string::*;

verus! {

/// The key of the line that pins the version.
pub open spec fn pin_key() -> Seq<char> {
    "last_version"@
}

/// The line that pins the version to the sentinel.
pub open spec fn pin_line() -> Seq<char> {
    "last_version=1.0.0.0"@
}

/// Whether `line` pins the version: without the white space around it, it
/// begins with the key.
pub open spec fn pins_version(line: Seq<char>) -> bool {
    pin_key().is_prefix_of(trimmed(line))
}

/// The lines with every line that pins the version replaced by the sentinel.
pub open spec fn locked_lines(lines: Seq<Seq<char>>) -> Seq<Seq<char>> {
    Seq::new(
        lines.len(),
        |i: int|
            if pins_version(lines[i]) {
                pin_line()
            } else {
                lines[i]
            },
    )
}

/// Whether one of the lines pins the version.
pub open spec fn has_pin(lines: Seq<Seq<char>>) -> bool {
    exists|i: int| 0 <= i < lines.len() && pins_version(lines[i])
}

/// The configuration `content` locked: every line that pins the version says
/// the sentinel; where there was none, the sentinel is the new last line.
pub open spec fn locked_config(content: Seq<char>) -> Seq<char> {
    let lines = lines_of(content);
    if has_pin(lines) {
        joined(locked_lines(lines))
    } else {
        joined(locked_lines(lines).push(pin_line()))
    }
}

/// The lines that do not pin the version, in their order.
pub open spec fn unpinned_lines(lines: Seq<Seq<char>>) -> Seq<Seq<char>>
    decreases lines.len(),
{
    if lines.len() == 0 {
        Seq::empty()
    } else if pins_version(lines.last()) {
        unpinned_lines(lines.drop_last())
    } else {
        unpinned_lines(lines.drop_last()).push(lines.last())
    }
}

/// The configuration `content` without the lines that pin the version.
pub open spec fn unlocked_config(content: Seq<char>) -> Seq<char> {
    joined(unpinned_lines(lines_of(content)))
}

/// Whether `line` says the sentinel and nothing else: without the white space
/// around it, it is the line that pins the version to the sentinel.
pub open spec fn says_sentinel(line: Seq<char>) -> bool {
    trimmed(line) == pin_line()
}

/// Whether the configuration `content` counts as locked: one of its lines
/// says the sentinel.
pub open spec fn config_is_locked(content: Seq<char>) -> bool {
    exists|i: int| 0 <= i < lines_of(content).len() && says_sentinel(#[trigger] lines_of(content)[i])
}

fn line_pins_version(line: &Vec<char>, key: &Vec<char>) -> (out: bool)
    requires
        key@ == pin_key(),
    ensures
        out == pins_version(line@),
{
    let bare = trim(line);
    starts_with(&bare, key)
}

/// Locks the configuration `content`.
pub fn lock_text(content: &str) -> (out: String)
    ensures
        out@ == locked_config(content@),
{
    let key = to_chars("last_version");
    let sentinel = to_chars("last_version=1.0.0.0");
    let chars = to_chars(content);
    let old_lines = lines(&chars);
    let ghost all = old_lines.deep_view();
    let mut new_lines: Vec<Vec<char>> = Vec::new();
    let mut found = false;
    let mut i: usize = 0;
    proof {
        assert(new_lines.deep_view() =~= locked_lines(all).take(0));
    }
    while i < old_lines.len()
        invariant
            i <= old_lines.len(),
            all == old_lines.deep_view(),
            key@ == pin_key(),
            sentinel@ == pin_line(),
            new_lines.deep_view() == locked_lines(all).take(i as int),
            found <==> exists|j: int| 0 <= j < i && pins_version(all[j]),
        decreases old_lines.len() - i,
    {
        let line = &old_lines[i];
        proof {
            assert(all[i as int] =~= line@);
        }
        let ghost before = new_lines;
        let pinned = line_pins_version(line, &key);
        let next = if pinned {
            found = true;
            sentinel.clone()
        } else {
            line.clone()
        };
        new_lines.push(next);
        proof {
            lemma_deep_view_push_chars(before, new_lines, next);
            assert(new_lines.deep_view() =~= locked_lines(all).take(i + 1));
        }
        i += 1;
    }
    proof {
        assert(locked_lines(all).take(all.len() as int) =~= locked_lines(all));
    }
    if !found {
        let ghost before = new_lines;
        let last = sentinel.clone();
        new_lines.push(last);
        proof {
            lemma_deep_view_push_chars(before, new_lines, last);
        }
    }
    let text = join_lines(&new_lines);
    from_chars(&text)
}

/// Takes the lines that pin the version out of the configuration `content`.
pub fn unlock_text(content: &str) -> (out: String)
    ensures
        out@ == unlocked_config(content@),
{
    let key = to_chars("last_version");
    let chars = to_chars(content);
    let old_lines = lines(&chars);
    let ghost all = old_lines.deep_view();
    let mut kept: Vec<Vec<char>> = Vec::new();
    let mut i: usize = 0;
    proof {
        assert(all.take(0) =~= Seq::<Seq<char>>::empty());
        assert(kept.deep_view() =~= Seq::<Seq<char>>::empty());
    }
    while i < old_lines.len()
        invariant
            i <= old_lines.len(),
            all == old_lines.deep_view(),
            key@ == pin_key(),
            kept.deep_view() == unpinned_lines(all.take(i as int)),
        decreases old_lines.len() - i,
    {
        let line = &old_lines[i];
        proof {
            assert(all[i as int] =~= line@);
            assert(all.take(i + 1).drop_last() =~= all.take(i as int));
            assert(all.take(i + 1).last() == all[i as int]);
        }
        if !line_pins_version(line, &key) {
            let ghost before = kept;
            let copy = line.clone();
            kept.push(copy);
            proof {
                lemma_deep_view_push_chars(before, kept, copy);
            }
        }
        i += 1;
    }
    proof {
        assert(all.take(all.len() as int) =~= all);
    }
    let text = join_lines(&kept);
    from_chars(&text)
}

/// Whether `s` holds no line feed.
pub open spec fn no_line_feed(s: Seq<char>) -> bool {
    forall|j: int| 0 <= j < s.len() ==> s[j] != '\n'
}

/// Whether `line` is one of `lines`, as it stands or without the carriage
/// return at its end.
pub open spec fn comes_from(line: Seq<char>, lines: Seq<Seq<char>>) -> bool {
    exists|i: int| 0 <= i < lines.len() && (line == lines[i] || line == strip_cr(lines[i]))
}

/// The lines that come out when `lines`, joined, are taken apart again: each
/// line but the last loses a carriage return at its end, and an empty last
/// line is no line.
pub open spec fn resplit(lines: Seq<Seq<char>>) -> Seq<Seq<char>>
    decreases lines.len(),
{
    if lines.len() == 0 {
        Seq::empty()
    } else if lines.len() == 1 {
        if lines[0].len() > 0 {
            seq![lines[0]]
        } else {
            Seq::empty()
        }
    } else {
        seq![strip_cr(lines[0])] + resplit(lines.drop_first())
    }
}

proof fn lemma_line_end_bounds(s: Seq<char>)
    ensures
        line_end(s) <= s.len(),
        forall|j: int| 0 <= j < line_end(s) ==> s[j] != '\n',
        line_end(s) < s.len() ==> s[line_end(s) as int] == '\n',
    decreases s.len(),
{
    if s.len() > 0 && s[0] != '\n' {
        let rest = s.drop_first();
        lemma_line_end_bounds(rest);
        assert forall|j: int| 0 <= j < line_end(s) implies s[j] != '\n' by {
            if j > 0 {
                assert(rest[j - 1] == s[j]);
            }
        }
    }
}

/// No line of a text holds a line feed.
pub proof fn lemma_lines_have_no_feed(s: Seq<char>)
    ensures
        forall|i: int| 0 <= i < lines_of(s).len() ==> no_line_feed(#[trigger] lines_of(s)[i]),
    decreases s.len(),
{
    if s.len() > 0 {
        lemma_line_end_bounds(s);
        let k = line_end(s) as int;
        if k < s.len() {
            let rest = lines_of(s.skip(k + 1));
            lemma_lines_have_no_feed(s.skip(k + 1));
            let first = strip_cr(s.take(k));
            assert(no_line_feed(first));
            assert forall|i: int| 0 <= i < lines_of(s).len() implies no_line_feed(
                #[trigger] lines_of(s)[i],
            ) by {
                if i > 0 {
                    assert(lines_of(s)[i] == rest[i - 1]);
                }
            }
        }
    }
}

proof fn lemma_joined_front(x: Seq<Seq<char>>)
    requires
        x.len() >= 2,
    ensures
        joined(x) == x[0] + seq!['\n'] + joined(x.drop_first()),
    decreases x.len(),
{
    if x.len() == 2 {
        assert(x.drop_last().len() == 1);
        assert(x.drop_first().len() == 1);
        assert(joined(x.drop_last()) == x[0]);
        assert(joined(x.drop_first()) == x[1]);
    } else {
        lemma_joined_front(x.drop_last());
        assert(x.drop_first().drop_last() =~= x.drop_last().drop_first());
        assert(joined(x) =~= x[0] + seq!['\n'] + joined(x.drop_first()));
    }
}

/// Lines without line feeds that are joined and taken apart again come out
/// as `resplit` says.
pub proof fn lemma_resplit(x: Seq<Seq<char>>)
    requires
        forall|i: int| 0 <= i < x.len() ==> no_line_feed(#[trigger] x[i]),
    ensures
        lines_of(joined(x)) == resplit(x),
    decreases x.len(),
{
    if x.len() == 0 {
    } else if x.len() == 1 {
        let t = joined(x);
        assert(t == x[0]);
        if t.len() > 0 {
            assert(no_line_feed(x[0]));
            lemma_line_end(t, t.len() as int);
            assert(lines_of(t) =~= seq![t]);
        }
    } else {
        let t = joined(x);
        let rest = x.drop_first();
        lemma_joined_front(x);
        assert(no_line_feed(x[0]));
        let k = x[0].len() as int;
        assert(t[k] == '\n');
        assert forall|j: int| 0 <= j < k implies t[j] != '\n' by {
            assert(t[j] == x[0][j]);
        }
        lemma_line_end(t, k);
        assert(t.take(k) =~= x[0]);
        assert(t.skip(k + 1) =~= joined(rest));
        assert forall|i: int| 0 <= i < rest.len() implies no_line_feed(#[trigger] rest[i]) by {
            assert(rest[i] == x[i + 1]);
        }
        lemma_resplit(rest);
        assert(lines_of(t) =~= seq![strip_cr(x[0])] + lines_of(joined(rest)));
    }
}

proof fn lemma_resplit_comes_from(x: Seq<Seq<char>>)
    ensures
        forall|k: int| 0 <= k < resplit(x).len() ==> comes_from(#[trigger] resplit(x)[k], x),
    decreases x.len(),
{
    if x.len() == 1 {
        if x[0].len() > 0 {
            assert(resplit(x)[0] == x[0]);
        }
    } else if x.len() > 1 {
        let rest = x.drop_first();
        lemma_resplit_comes_from(rest);
        let tail = resplit(rest);
        assert forall|k: int| 0 <= k < resplit(x).len() implies comes_from(
            #[trigger] resplit(x)[k],
            x,
        ) by {
            if k == 0 {
                assert(resplit(x)[0] == strip_cr(x[0]));
            } else {
                assert(resplit(x)[k] == tail[k - 1]);
                assert(comes_from(tail[k - 1], rest));
                let i = choose|i: int|
                    0 <= i < rest.len() && (tail[k - 1] == rest[i] || tail[k - 1] == strip_cr(
                        rest[i],
                    ));
                assert(rest[i] == x[i + 1]);
            }
        }
    }
}

proof fn lemma_resplit_keeps(x: Seq<Seq<char>>, i: int)
    requires
        0 <= i < x.len(),
        x[i].len() > 0,
        strip_cr(x[i]) == x[i],
    ensures
        exists|k: int| 0 <= k < resplit(x).len() && #[trigger] resplit(x)[k] == x[i],
    decreases x.len(),
{
    if x.len() == 1 {
        assert(resplit(x)[0] == x[i]);
    } else if i == 0 {
        assert(resplit(x)[0] == x[i]);
    } else {
        let rest = x.drop_first();
        assert(rest[i - 1] == x[i]);
        lemma_resplit_keeps(rest, i - 1);
        let k = choose|k: int| 0 <= k < resplit(rest).len() && #[trigger] resplit(rest)[k] == x[i];
        assert(resplit(x)[k + 1] == resplit(rest)[k]);
    }
}

proof fn lemma_trim_start_without_last(s: Seq<char>)
    requires
        s.len() > 0,
        is_space(s.last()),
    ensures
        trim_start(s).len() > 0 ==> is_space(trim_start(s).last()) && trim_start(s.drop_last())
            == trim_start(s).drop_last(),
        trim_start(s).len() == 0 ==> trim_start(s.drop_last()).len() == 0,
    decreases s.len(),
{
    if is_space(s[0]) {
        if s.len() == 1 {
            assert(s.drop_last() =~= Seq::<char>::empty());
            assert(s.drop_first() =~= Seq::<char>::empty());
        } else {
            assert(s.drop_last()[0] == s[0]);
            assert(s.drop_last().drop_first() =~= s.drop_first().drop_last());
            lemma_trim_start_without_last(s.drop_first());
        }
    } else {
        assert(s.len() > 1);
        assert(s.drop_last()[0] == s[0]);
    }
}

/// A carriage return at the end of a line is white space: the line pins the
/// version with it or without it.
pub proof fn lemma_trimmed_without_cr(line: Seq<char>)
    ensures
        trimmed(strip_cr(line)) == trimmed(line),
{
    if line.len() > 0 && line.last() == '\r' {
        assert(is_space('\r'));
        lemma_trim_start_without_last(line);
    }
}

proof fn lemma_unpinned(lines: Seq<Seq<char>>)
    ensures
        forall|k: int|
            0 <= k < unpinned_lines(lines).len() ==> !pins_version(
                #[trigger] unpinned_lines(lines)[k],
            ) && lines.contains(unpinned_lines(lines)[k]),
    decreases lines.len(),
{
    if lines.len() > 0 {
        let front = lines.drop_last();
        lemma_unpinned(front);
        assert forall|k: int| 0 <= k < unpinned_lines(lines).len() implies !pins_version(
            #[trigger] unpinned_lines(lines)[k],
        ) && lines.contains(unpinned_lines(lines)[k]) by {
            if k < unpinned_lines(front).len() {
                let u = unpinned_lines(front)[k];
                assert(front.contains(u));
                let j = choose|j: int| 0 <= j < front.len() && front[j] == u;
                assert(lines[j] == u);
            } else {
                assert(lines[lines.len() - 1] == lines.last());
            }
        }
    }
}

proof fn lemma_pin_line()
    ensures
        pin_line().len() > 0,
        no_line_feed(pin_line()),
        trimmed(pin_line()) == pin_line(),
        pins_version(pin_line()),
        strip_cr(pin_line()) == pin_line(),
{
    reveal_strlit("last_version=1.0.0.0");
    reveal_strlit("last_version");
    let p = pin_line();
    assert(p.len() == 20);
    assert(!is_space(p[0]));
    assert(!is_space(p.last()));
    assert(trim_start(p) == p);
    assert(trim_end(p) == p);
    assert(p.subrange(0, 12) =~= pin_key());
}

/// A line that says the sentinel pins the version.
pub proof fn lemma_sentinel_pins(line: Seq<char>)
    requires
        says_sentinel(line),
    ensures
        pins_version(line),
{
    lemma_pin_line();
}

/// Locking locks: a configuration that has been locked counts as locked,
/// whatever it held before.
pub proof fn lemma_lock_locks(content: Seq<char>)
    ensures
        config_is_locked(locked_config(content)),
{
    lemma_pin_line();
    lemma_lines_have_no_feed(content);
    let given = lines_of(content);
    let locked = if has_pin(given) {
        locked_lines(given)
    } else {
        locked_lines(given).push(pin_line())
    };
    assert forall|i: int| 0 <= i < locked.len() implies no_line_feed(#[trigger] locked[i]) by {
        if i < given.len() {
            assert(no_line_feed(given[i]));
        }
    }
    let i = if has_pin(given) {
        choose|i: int| 0 <= i < given.len() && pins_version(given[i])
    } else {
        locked.len() - 1
    };
    assert(locked[i] == pin_line());
    lemma_resplit(locked);
    lemma_resplit_keeps(locked, i);
    let k = choose|k: int| 0 <= k < resplit(locked).len() && #[trigger] resplit(locked)[k] == locked[i];
    assert(says_sentinel(lines_of(locked_config(content))[k]));
}

/// Unlocking leaves no pin: in a configuration that has been unlocked no line
/// pins the version, whatever it held before, and so it does not count as
/// locked.
pub proof fn lemma_unlock_leaves_no_pin(content: Seq<char>)
    ensures
        !has_pin(lines_of(unlocked_config(content))),
        !config_is_locked(unlocked_config(content)),
{
    lemma_lines_have_no_feed(content);
    let given = lines_of(content);
    let kept = unpinned_lines(given);
    lemma_unpinned(given);
    assert forall|i: int| 0 <= i < kept.len() implies no_line_feed(#[trigger] kept[i]) by {
        assert(given.contains(kept[i]));
        let j = choose|j: int| 0 <= j < given.len() && given[j] == kept[i];
        assert(no_line_feed(given[j]));
    }
    lemma_resplit(kept);
    lemma_resplit_comes_from(kept);
    let again = lines_of(unlocked_config(content));
    assert forall|k: int| 0 <= k < again.len() implies !pins_version(#[trigger] again[k]) by {
        assert(comes_from(again[k], kept));
        let i = choose|i: int|
            0 <= i < kept.len() && (again[k] == kept[i] || again[k] == strip_cr(kept[i]));
        lemma_trimmed_without_cr(kept[i]);
        assert(!pins_version(kept[i]));
    }
    assert forall|k: int| 0 <= k < again.len() implies !says_sentinel(#[trigger] again[k]) by {
        if says_sentinel(again[k]) {
            lemma_sentinel_pins(again[k]);
        }
    }
}

/// Unlocking undoes locking: a configuration that is locked and then
/// unlocked holds no line that pins the version and does not count as locked.
pub proof fn lemma_unlock_undoes_lock(content: Seq<char>)
    ensures
        !has_pin(lines_of(unlocked_config(locked_config(content)))),
        !config_is_locked(unlocked_config(locked_config(content))),
{
    lemma_unlock_leaves_no_pin(locked_config(content));
}

/// Whether the configuration `content` counts as locked.
pub fn is_locked_text(content: &str) -> (out: bool)
    ensures
        out == config_is_locked(content@),
{
    let chars = to_chars(content);
    let sentinel = to_chars("last_version=1.0.0.0");
    let all_lines = lines(&chars);
    let ghost all = all_lines.deep_view();
    let mut i: usize = 0;
    while i < all_lines.len()
        invariant
            i <= all_lines.len(),
            all == all_lines.deep_view(),
            all == lines_of(content@),
            sentinel@ == pin_line(),
            forall|j: int| 0 <= j < i ==> !says_sentinel(#[trigger] all[j]),
        decreases all_lines.len() - i,
    {
        let bare = trim(&all_lines[i]);
        proof {
            assert(all[i as int] =~= all_lines@[i as int]@);
        }
        if bare.len() == sentinel.len() && starts_with(&bare, &sentinel) {
            proof {
                assert(bare@.subrange(0, bare@.len() as int) =~= bare@);
                assert(says_sentinel(all[i as int]));
            }
            return true;
        }
        proof {
            if says_sentinel(all[i as int]) {
                assert(bare@.subrange(0, bare@.len() as int) =~= bare@);
            }
        }
        i += 1;
    }
    false
}

} // verus!
