//! A bounded FIFO of the most recent log lines.
//!
//! Text arrives in arbitrary chunks; complete lines (ended by `'\n'`) enter
//! the buffer, a trailing partial line is kept pending and prefixed to the
//! next chunk, as a line-buffered writer would.  Once the buffer holds more
//! than its capacity, the oldest line is dropped first.  The buffer itself
//! is a plain value: the embedding shares one instance behind a mutex, every
//! operation being a single bounded critical section, so a snapshot taken
//! concurrently with an append never observes a torn line.

use vstd::prelude::*;
use crate::text::views_of;

verus! {

/// Split `text`, arriving after the partial line `cur`, into the lines that
/// `'\n'` completes and the partial line that remains.
pub open spec fn line_split(text: Seq<char>, cur: Seq<char>) -> (Seq<Seq<char>>, Seq<char>)
    decreases text.len(),
{
    if text.len() == 0 {
        (Seq::empty(), cur)
    } else if text[0] == '\n' {
        let rest = line_split(text.skip(1), Seq::empty());
        (seq![cur] + rest.0, rest.1)
    } else {
        line_split(text.skip(1), cur.push(text[0]))
    }
}

/// The most recent `max` elements of `ls`, oldest first.
pub open spec fn recent(ls: Seq<Seq<char>>, max: int) -> Seq<Seq<char>> {
    if ls.len() <= max {
        ls
    } else {
        ls.skip(ls.len() - max)
    }
}

/// Splitting never yields a line or a pending remainder that still holds a
/// line break: what enters the buffer is complete lines only.
pub proof fn lemma_line_split_clean(text: Seq<char>, cur: Seq<char>)
    requires
        !cur.contains('\n'),
    ensures
        forall|i: int|
            0 <= i < line_split(text, cur).0.len() ==> !(#[trigger] line_split(text, cur).0[i]).contains('\n'),
        !line_split(text, cur).1.contains('\n'),
    decreases text.len(),
{
    if text.len() == 0 {
    } else if text[0] == '\n' {
        lemma_line_split_clean(text.skip(1), Seq::empty());
    } else {
        assert(!cur.push(text[0]).contains('\n')) by {
            assert(forall|i: int|
                0 <= i < cur.len() ==> cur.push(text[0])[i] == #[trigger] cur[i]);
        }
        lemma_line_split_clean(text.skip(1), cur.push(text[0]));
    }
}

/// Dropping the oldest element does not change which lines are the most
/// recent `max`, as long as more than `max` are held.
proof fn lemma_recent_drop_front(ls: Seq<Seq<char>>, max: int)
    requires
        0 <= max,
        ls.len() > max,
    ensures
        recent(ls.skip(1), max) == recent(ls, max),
{
    if ls.len() - 1 <= max {
        assert(ls.skip(1) =~= ls.skip(ls.len() - max));
    } else {
        assert(ls.skip(1).skip(ls.len() - 1 - max) =~= ls.skip(ls.len() - max));
    }
}

/// Keeping the most recent `max` of `ls` keeps exactly the last
/// `min(len, max)` elements, in their original order.
pub proof fn lemma_recent_lines(ls: Seq<Seq<char>>, max: int)
    requires
        0 <= max,
    ensures
        recent(ls, max).len() == if ls.len() <= max {
            ls.len() as int
        } else {
            max
        },
        forall|i: int|
            0 <= i < recent(ls, max).len() ==> #[trigger] recent(ls, max)[i] == ls[ls.len()
                - recent(ls, max).len() + i],
{
}

/// The bounded log line buffer.
pub struct LogBuffer {
    pub max_lines: usize,
    pub lines: Vec<String>,
    pub pending: String,
}

impl LogBuffer {
    /// The buffer holds at most its capacity, and neither a held line nor
    /// the pending text contains a line break.
    pub open spec fn wf(&self) -> bool {
        &&& self.lines@.len() <= self.max_lines
        &&& forall|i: int|
            0 <= i < self.lines@.len() ==> !(#[trigger] self.lines@[i])@.contains('\n')
        &&& !self.pending@.contains('\n')
    }

    /// An empty buffer that will hold at most `max_lines` lines.
    pub fn new(max_lines: usize) -> (b: LogBuffer)
        ensures
            b.wf(),
            b.max_lines == max_lines,
            b.lines@.len() == 0,
            b.pending@.len() == 0,
    {
        LogBuffer { max_lines, lines: Vec::new(), pending: String::new() }
    }

    /// Append a chunk of text.  Lines completed by `'\n'` (the first one
    /// prefixed with the pending text) enter the buffer in order; once more
    /// than `max_lines` are held, the oldest leave first; the text after the
    /// last `'\n'` stays pending.
    pub fn append(&mut self, text: &str)
        requires
            old(self).wf(),
        ensures
            final(self).wf(),
            final(self).max_lines == old(self).max_lines,
            views_of(final(self).lines@) == recent(
                views_of(old(self).lines@) + line_split(text@, old(self).pending@).0,
                old(self).max_lines as int,
            ),
            final(self).pending@ == line_split(text@, old(self).pending@).1,
    {
        let n = text.unicode_len();
        let mut idx: usize = 0;
        let ghost total = views_of(old(self).lines@) + line_split(text@, old(self).pending@).0;
        proof {
            assert(text@.skip(0) =~= text@);
        }
        while idx < n
            invariant
                idx <= n,
                n == text@.len(),
                self.max_lines == old(self).max_lines,
                forall|i: int|
                    0 <= i < self.lines@.len() ==> !(#[trigger] self.lines@[i])@.contains('\n'),
                !self.pending@.contains('\n'),
                total == views_of(old(self).lines@) + line_split(text@, old(self).pending@).0,
                total == views_of(self.lines@) + line_split(text@.skip(idx as int), self.pending@).0,
                line_split(text@, old(self).pending@).1 == line_split(
                    text@.skip(idx as int),
                    self.pending@,
                ).1,
            decreases n - idx,
        {
            let c = text.get_char(idx);
            proof {
                assert(text@.skip(idx as int)[0] == text@[idx as int]);
                assert(text@.skip(idx as int).skip(1) =~= text@.skip(idx as int + 1));
            }
            if c == '\n' {
                let mut line = String::new();
                core::mem::swap(&mut line, &mut self.pending);
                proof {
                    assert(views_of(self.lines@.push(line)) =~= views_of(self.lines@) + seq![
                        line@,
                    ]);
                }
                self.lines.push(line);
                proof {
                    assert(views_of(self.lines@) + (seq![Seq::<char>::empty()].skip(1)
                        + line_split(text@.skip(idx as int + 1), Seq::empty()).0) =~= views_of(
                        self.lines@,
                    ) + line_split(text@.skip(idx as int + 1), Seq::empty()).0);
                }
            } else {
                let seg = text.substring_char(idx, idx + 1);
                proof {
                    assert(seg@ =~= seq![text@[idx as int]]);
                    assert(self.pending@ + seq![text@[idx as int]] =~= self.pending@.push(
                        text@[idx as int],
                    ));
                    assert(!self.pending@.push(text@[idx as int]).contains('\n')) by {
                        assert(forall|i: int|
                            0 <= i < self.pending@.len() ==> self.pending@.push(
                                text@[idx as int],
                            )[i] == #[trigger] self.pending@[i]);
                    }
                }
                self.pending.append(seg);
            }
            idx += 1;
        }
        proof {
            assert(text@.skip(n as int) =~= Seq::<char>::empty());
            lemma_line_split_clean(text@, old(self).pending@);
        }
        while self.lines.len() > self.max_lines
            invariant
                self.max_lines == old(self).max_lines,
                forall|i: int|
                    0 <= i < self.lines@.len() ==> !(#[trigger] self.lines@[i])@.contains('\n'),
                !self.pending@.contains('\n'),
                self.pending@ == line_split(text@, old(self).pending@).1,
                recent(views_of(self.lines@), self.max_lines as int) == recent(
                    total,
                    self.max_lines as int,
                ),
            decreases self.lines@.len(),
        {
            proof {
                lemma_recent_drop_front(views_of(self.lines@), self.max_lines as int);
                assert(views_of(self.lines@.skip(1)) =~= views_of(self.lines@).skip(1));
                assert(self.lines@.subrange(0, 0) + self.lines@.subrange(
                    1,
                    self.lines@.len() as int,
                ) =~= self.lines@.skip(1));
            }
            self.lines.remove(0);
        }
        proof {
            assert(recent(views_of(self.lines@), self.max_lines as int) =~= views_of(
                self.lines@,
            ));
        }
    }

    /// Force the pending partial line (if any) into the buffer as a final
    /// line; with nothing pending, nothing changes.
    pub fn flush(&mut self)
        requires
            old(self).wf(),
        ensures
            final(self).wf(),
            final(self).max_lines == old(self).max_lines,
            final(self).pending@.len() == 0,
            old(self).pending@.len() == 0 ==> final(self).lines@ == old(self).lines@,
            old(self).pending@.len() > 0 ==> views_of(final(self).lines@) == recent(
                views_of(old(self).lines@) + seq![old(self).pending@],
                old(self).max_lines as int,
            ),
    {
        if self.pending.as_str().unicode_len() > 0 {
            let mut line = String::new();
            core::mem::swap(&mut line, &mut self.pending);
            let ghost total = views_of(old(self).lines@) + seq![line@];
            proof {
                assert(views_of(self.lines@.push(line)) =~= views_of(self.lines@) + seq![line@]);
            }
            self.lines.push(line);
            if self.lines.len() > self.max_lines {
                proof {
                    lemma_recent_drop_front(views_of(self.lines@), self.max_lines as int);
                    assert(views_of(self.lines@.skip(1)) =~= views_of(self.lines@).skip(1));
                    assert(self.lines@.subrange(0, 0) + self.lines@.subrange(
                        1,
                        self.lines@.len() as int,
                    ) =~= self.lines@.skip(1));
                }
                self.lines.remove(0);
            }
            proof {
                assert(recent(views_of(self.lines@), self.max_lines as int) =~= views_of(
                    self.lines@,
                ));
                assert(recent(total, self.max_lines as int) == views_of(self.lines@));
            }
        }
    }

    /// An owned copy of the held lines, oldest first, most recent last.
    pub fn snapshot(&self) -> (r: Vec<String>)
        ensures
            r@.len() == self.lines@.len(),
            forall|i: int| 0 <= i < r@.len() ==> #[trigger] r@[i]@ == self.lines@[i]@,
            views_of(r@) == views_of(self.lines@),
    {
        let mut r: Vec<String> = Vec::new();
        let n = self.lines.len();
        let mut i: usize = 0;
        while i < n
            invariant
                i <= n,
                n == self.lines@.len(),
                r@.len() == i,
                forall|k: int| 0 <= k < i ==> #[trigger] r@[k]@ == self.lines@[k]@,
            decreases n - i,
        {
            r.push(self.lines[i].clone());
            i += 1;
        }
        proof {
            assert(views_of(r@) =~= views_of(self.lines@));
        }
        r
    }
}

} // verus!
