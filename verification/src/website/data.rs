//! The console's log stream: first everything the console holds, then,
//! every couple of seconds, the lines that came after the last one shown.

use vstd::prelude::*;

use crate::auth::{cookie_view, logged_in, spec_logged_in, AuthenticatedUsers, PermissionType};
use crate::command::views;
use crate::text::same_text;

verus! {

/// Lines written one after another.
pub open spec fn joined(lines: Seq<Seq<char>>) -> Seq<char>
    decreases lines.len(),
{
    if lines.len() == 0 {
        Seq::empty()
    } else {
        joined(lines.drop_last()) + lines.last()
    }
}

/// The position just after the last line equal to `last`, or `0` when no
/// line is: where the lines not yet shown begin.
pub open spec fn resume_index(text: Seq<Seq<char>>, last: Seq<char>) -> nat
    decreases text.len(),
{
    if text.len() == 0 {
        0
    } else if text.last() == last {
        text.len()
    } else {
        resume_index(text.drop_last(), last)
    }
}

/// The last line of a console, or the empty line for an empty one.
pub open spec fn last_or_empty(text: Seq<Seq<char>>) -> Seq<char> {
    if text.len() > 0 { text.last() } else { Seq::empty() }
}

/// The line the stream remembers after a tick on `text`: the newest line
/// of `text`, or, for an empty console, the line it remembered before.
pub open spec fn poll_last(last: Seq<char>, text: Seq<Seq<char>>) -> Seq<char> {
    if text.len() > 0 { text.last() } else { last }
}

/// The line the stream remembers after opening on the first snapshot of
/// the console and ticking on each later one (opening is a tick from the
/// empty line).
pub open spec fn remembered_after(snaps: Seq<Seq<Seq<char>>>) -> Seq<char>
    decreases snaps.len(),
{
    if snaps.len() == 0 {
        Seq::empty()
    } else {
        poll_last(remembered_after(snaps.drop_last()), snaps.last())
    }
}

/// The newest line of the latest snapshot that was not empty, or the empty
/// line if every snapshot was empty.
pub open spec fn latest_last_line(snaps: Seq<Seq<Seq<char>>>) -> Seq<char>
    decreases snaps.len(),
{
    if snaps.len() == 0 {
        Seq::empty()
    } else if snaps.last().len() > 0 {
        snaps.last().last()
    } else {
        latest_last_line(snaps.drop_last())
    }
}

/// What a tick on `text` shows when the stream remembers `last`.
pub open spec fn tick_shows(last: Seq<char>, text: Seq<Seq<char>>) -> Seq<char> {
    joined(text.skip(resume_index(text, last) as int))
}

/// Where the log stream stands: the last line it has shown.
pub struct LogCursor {
    pub last_line: String,
}

/// The log stream is for the admin only; anyone else gets this refusal.
pub fn data_log(users: &AuthenticatedUsers, cookie: Option<&str>) -> (r: Result<(), String>)
    ensures
        spec_logged_in(users@, cookie_view(cookie)) == Some(PermissionType::Admin) ==> r is Ok,
        spec_logged_in(users@, cookie_view(cookie)) != Some(PermissionType::Admin) ==> (r matches Err(
            m,
        ) && m@ == "User not logged in"@),
{
    if logged_in(users, cookie) != Some(PermissionType::Admin) {
        return Err(String::from_str("User not logged in"));
    }
    Ok(())
}

fn join_from(text: &Vec<String>, from: usize) -> (r: String)
    requires
        from <= text@.len(),
    ensures
        r@ == joined(views(text@).skip(from as int)),
{
    let ghost all = views(text@);
    let mut out = String::new();
    let mut i: usize = from;
    assert(all.subrange(from as int, from as int) =~= Seq::<Seq<char>>::empty());
    while i < text.len()
        invariant
            from <= i <= text@.len(),
            all == views(text@),
            out@ == joined(all.subrange(from as int, i as int)),
        decreases text@.len() - i,
    {
        assert(all.subrange(from as int, i + 1).drop_last() =~= all.subrange(from as int, i as int));
        out.append(text[i].as_str());
        i = i + 1;
    }
    assert(all.subrange(from as int, text@.len() as int) =~= all.skip(from as int));
    out
}

proof fn lemma_resume_index(text: Seq<Seq<char>>, last: Seq<char>, i: int)
    requires
        0 <= i <= text.len(),
        i == 0 || text[i - 1] == last,
        forall|k: int| i <= k < text.len() ==> #[trigger] text[k] != last,
    ensures
        resume_index(text, last) == i,
    decreases text.len(),
{
    if text.len() > 0 {
        if i == text.len() {
        } else {
            let t = text.drop_last();
            assert(text.last() != last);
            assert forall|k: int| i <= k < t.len() implies #[trigger] t[k] != last by {
                assert(t[k] == text[k]);
            }
            lemma_resume_index(t, last, i);
        }
    }
}

impl LogCursor {
    /// Opens the stream: shows every line of the console, joined, and
    /// remembers the last one (the empty line if there is none).
    pub fn start(text: &Vec<String>) -> (r: (LogCursor, String))
        ensures
            r.1@ == joined(views(text@)),
            r.0.last_line@ == last_or_empty(views(text@)),
            r.0.last_line@ == poll_last(Seq::empty(), views(text@)),
    {
        let shown = join_from(text, 0);
        assert(views(text@).skip(0) =~= views(text@));
        let last_line = if text.len() == 0 {
            String::new()
        } else {
            text[text.len() - 1].clone()
        };
        (LogCursor { last_line }, shown)
    }

    /// One tick of the stream.  An empty console shows nothing.  Otherwise
    /// it shows, joined, the lines after the last one equal to the line
    /// last shown (all of them if none is), and remembers the newest of
    /// those, if any.
    pub fn poll(&mut self, text: &Vec<String>) -> (r: Option<String>)
        ensures
            text@.len() == 0 ==> r is None && final(self).last_line@ == old(self).last_line@,
            text@.len() > 0 ==> {
                let fresh = views(text@).skip(
                    resume_index(views(text@), old(self).last_line@) as int,
                );
                &&& r matches Some(s) && s@ == joined(fresh)
                &&& final(self).last_line@ == (if fresh.len() > 0 {
                    fresh.last()
                } else {
                    old(self).last_line@
                })
            },
            final(self).last_line@ == poll_last(old(self).last_line@, views(text@)),
    {
        let len: usize = text.len();
        if len == 0 {
            return None;
        }
        let ghost all = views(text@);
        let mut check: usize = len;
        while check > 0 && !same_text(text[check - 1].as_str(), self.last_line.as_str())
            invariant
                check <= len,
                len == text@.len(),
                all == views(text@),
                forall|k: int| check <= k < len ==> #[trigger] all[k] != self.last_line@,
            decreases check,
        {
            check = check - 1;
        }
        proof {
            lemma_resume_index(all, self.last_line@, check as int);
        }
        let shown = join_from(text, check);
        proof {
            if check == len {
                lemma_resume_index_full(all, old(self).last_line@);
            }
        }
        if check < len {
            self.last_line = text[len - 1].clone();
            assert(all.skip(check as int).last() == all[len - 1]);
        }
        Some(shown)
    }
}

proof fn lemma_resume_index_bound(text: Seq<Seq<char>>, last: Seq<char>)
    ensures
        resume_index(text, last) <= text.len(),
    decreases text.len(),
{
    if text.len() > 0 && text.last() != last {
        lemma_resume_index_bound(text.drop_last(), last);
    }
}

proof fn lemma_resume_index_full(text: Seq<Seq<char>>, last: Seq<char>)
    requires
        text.len() > 0,
        resume_index(text, last) == text.len(),
    ensures
        text.last() == last,
{
    if text.last() != last {
        lemma_resume_index_bound(text.drop_last(), last);
    }
}

/// Over any run of ticks, the stream remembers the newest line of the
/// latest snapshot of the console that was not empty (the empty line
/// while every snapshot was empty).  With the contracts of `start` and
/// `poll`, which move the remembered line as `poll_last` does, each tick
/// therefore shows the lines after the last copy of that line.
pub proof fn lemma_stream_remembers_latest_line(snaps: Seq<Seq<Seq<char>>>)
    ensures
        remembered_after(snaps) == latest_last_line(snaps),
    decreases snaps.len(),
{
    if snaps.len() > 0 {
        lemma_stream_remembers_latest_line(snaps.drop_last());
    }
}

/// An unchanged log sends nothing twice: a tick on a snapshot equal to the
/// latest snapshot that was not empty (any later ones being empty) shows
/// nothing and leaves the remembered line as it was.
pub proof fn lemma_unchanged_log_shows_nothing(
    snaps: Seq<Seq<Seq<char>>>,
    j: int,
    text: Seq<Seq<char>>,
)
    requires
        0 <= j < snaps.len(),
        snaps[j] == text,
        text.len() > 0,
        forall|k: int| j < k < snaps.len() ==> (#[trigger] snaps[k]).len() == 0,
    ensures
        tick_shows(remembered_after(snaps), text) == Seq::<char>::empty(),
        remembered_after(snaps.push(text)) == remembered_after(snaps),
    decreases snaps.len(),
{
    lemma_stream_remembers_latest_line(snaps);
    lemma_latest_after_empty(snaps, j);
    let last = remembered_after(snaps);
    assert(last == text.last());
    assert(resume_index(text, last) == text.len());
    assert(text.skip(text.len() as int) =~= Seq::<Seq<char>>::empty());
    assert(snaps.push(text).drop_last() =~= snaps);
}

proof fn lemma_latest_after_empty(snaps: Seq<Seq<Seq<char>>>, j: int)
    requires
        0 <= j < snaps.len(),
        snaps[j].len() > 0,
        forall|k: int| j < k < snaps.len() ==> (#[trigger] snaps[k]).len() == 0,
    ensures
        latest_last_line(snaps) == snaps[j].last(),
    decreases snaps.len(),
{
    if j < snaps.len() - 1 {
        let t = snaps.drop_last();
        assert(snaps.last().len() == 0);
        assert forall|k: int| j < k < t.len() implies (#[trigger] t[k]).len() == 0 by {
            assert(t[k] == snaps[k]);
        }
        lemma_latest_after_empty(t, j);
    }
}

/// A single line is shown as it is, with nothing cut or added.
pub proof fn lemma_joined_single(line: Seq<char>)
    ensures
        joined(seq![line]) == line,
{
    let one = seq![line];
    assert(one.drop_last() =~= Seq::<Seq<char>>::empty());
    assert(joined(one.drop_last()) == Seq::<char>::empty());
    assert(one.last() == line);
    assert(Seq::<char>::empty() + line =~= line);
}

/// What the stream shows of a run of lines is their plain concatenation,
/// vstd's `flatten`: every line in full, in order.
pub proof fn lemma_joined_is_flatten(lines: Seq<Seq<char>>)
    ensures
        joined(lines) == lines.flatten(),
    decreases lines.len(),
{
    if lines.len() > 0 {
        lemma_joined_is_flatten(lines.drop_last());
        assert(lines.drop_last().flatten() == lines.drop_last().flatten_alt()) by {
            lines.drop_last().lemma_flatten_and_flatten_alt_are_equivalent();
        }
    }
    lines.lemma_flatten_and_flatten_alt_are_equivalent();
}

/// Showing two runs of lines one after the other shows their
/// concatenation.
pub proof fn lemma_joined_concat(a: Seq<Seq<char>>, b: Seq<Seq<char>>)
    ensures
        joined(a + b) == joined(a) + joined(b),
    decreases b.len(),
{
    if b.len() == 0 {
        assert(a + b =~= a);
        assert(joined(a) + Seq::<char>::empty() =~= joined(a));
    } else {
        assert((a + b).drop_last() =~= a + b.drop_last());
        lemma_joined_concat(a, b.drop_last());
        assert(joined(a) + (joined(b.drop_last()) + b.last()) =~= (joined(a) + joined(
            b.drop_last(),
        )) + b.last());
    }
}

/// What the viewer sees is the whole console: after the stream opened on
/// `before`, one tick on `before` followed by `added` shows exactly
/// `added`, as long as no added line repeats the line last shown — so the
/// opening text and the tick's text together are the whole console.
pub proof fn lemma_log_stream_shows_appended(before: Seq<Seq<char>>, added: Seq<Seq<char>>)
    requires
        forall|k: int| 0 <= k < added.len() ==> #[trigger] added[k] != last_or_empty(before),
    ensures
        ({
            let text = before + added;
            let fresh = text.skip(resume_index(text, last_or_empty(before)) as int);
            &&& fresh == added
            &&& joined(before) + joined(fresh) == joined(text)
        }),
{
    let text = before + added;
    let last = last_or_empty(before);
    let i: int = before.len() as int;
    assert forall|k: int| i <= k < text.len() implies #[trigger] text[k] != last by {
        assert(text[k] == added[k - i]);
    }
    if i > 0 {
        assert(text[i - 1] == before.last());
    }
    lemma_resume_index(text, last, i);
    assert(text.skip(i) =~= added);
    lemma_joined_concat(before, added);
}

} // verus!
