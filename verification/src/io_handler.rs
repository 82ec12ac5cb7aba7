//! The lines that the supervised process has printed most recently.
//!
//! The control loop hands every batch of lines that it has drained from the
//! relay to `handle_output`. The handler keeps them in the order in which
//! they were printed and lets the oldest go once there are more than
//! `max_lines`.

use crate::text::{joined, texts};
use vstd::prelude::*;
use vstd::string::StringExecFns;

verus! {

/// The recent output of the supervised process.
pub struct ServerIOHandler {
    /// The lines that are kept, oldest first.
    pub total_string: Vec<String>,
    /// How many lines are kept at most.
    pub max_lines: usize,
}

/// The last `cap` lines of `lines`, or all of them where they are fewer.
pub open spec fn last_lines(lines: Seq<Seq<char>>, cap: nat) -> Seq<Seq<char>> {
    if lines.len() <= cap {
        lines
    } else {
        lines.subrange(lines.len() - cap, lines.len() as int)
    }
}

/// Of more lines than fit, exactly the `cap` most recent are kept, in the
/// order in which they came.
pub proof fn lemma_last_lines_holds_most_recent(lines: Seq<Seq<char>>, cap: nat)
    requires
        lines.len() >= cap,
    ensures
        last_lines(lines, cap).len() == cap,
        forall|i: int|
            0 <= i < cap ==> #[trigger] last_lines(lines, cap)[i] == lines[lines.len() - cap + i],
{
}

/// Keeping the last lines batch by batch is keeping the last lines of all
/// that came.
pub proof fn lemma_last_lines_in_batches(earlier: Seq<Seq<char>>, batch: Seq<Seq<char>>, cap: nat)
    ensures
        last_lines(last_lines(earlier, cap) + batch, cap) == last_lines(earlier + batch, cap),
{
    assert(last_lines(last_lines(earlier, cap) + batch, cap) =~= last_lines(earlier + batch, cap));
}

impl View for ServerIOHandler {
    type V = Seq<Seq<char>>;

    open spec fn view(&self) -> Seq<Seq<char>> {
        texts(self.total_string@)
    }
}

impl ServerIOHandler {
    /// No more lines are held than are to be kept.
    pub open spec fn wf(&self) -> bool {
        self.total_string.len() <= self.max_lines
    }

    /// A handler that holds no line yet and keeps `max_lines` at most.
    pub fn new(max_lines: usize) -> (r: Self)
        ensures
            r@ == Seq::<Seq<char>>::empty(),
            r.max_lines == max_lines,
            r.wf(),
    {
        let r = ServerIOHandler { total_string: Vec::new(), max_lines };
        assert(r@ =~= Seq::<Seq<char>>::empty());
        r
    }

    /// Lets the oldest lines go until no more than `max_lines` are held.
    fn evict(&mut self)
        ensures
            final(self).max_lines == old(self).max_lines,
            final(self)@ == last_lines(old(self)@, old(self).max_lines as nat),
    {
        let ghost before = self@;
        while self.total_string.len() > self.max_lines
            invariant
                self.max_lines == old(self).max_lines,
                before == old(self)@,
                self@.len() <= before.len(),
                self@ == before.subrange(before.len() - self@.len(), before.len() as int),
                before.len() > self.max_lines ==> self@.len() >= self.max_lines,
                before.len() <= self.max_lines ==> self@.len() == before.len(),
            decreases self.total_string.len(),
        {
            let ghost held = self@;
            self.total_string.remove(0);
            assert(self@ =~= held.subrange(1, held.len() as int));
        }
        assert(before.subrange(0, before.len() as int) =~= before);
    }

    /// Takes in the lines that the process has printed since the last call,
    /// in the order in which they were printed.
    ///
    /// Each line is appended and the oldest lines are let go, so that
    /// afterwards the handler holds the last `max_lines` of what it held
    /// and what was received. Without a line received nothing changes.
    pub fn handle_output(&mut self, received: Vec<String>)
        ensures
            final(self).max_lines == old(self).max_lines,
            final(self)@ == if received.len() == 0 {
                old(self)@
            } else {
                last_lines(old(self)@ + texts(received@), old(self).max_lines as nat)
            },
            received.len() > 0 || old(self).wf() ==> final(self).wf(),
    {
        let ghost cap = self.max_lines as nat;
        let ghost all = texts(received@);
        let mut i: usize = 0;
        while i < received.len()
            invariant
                i <= received.len(),
                self.max_lines == old(self).max_lines,
                cap == self.max_lines as nat,
                all == texts(received@),
                self@ == if i == 0 {
                    old(self)@
                } else {
                    last_lines(old(self)@ + all.subrange(0, i as int), cap)
                },
            decreases received.len() - i,
        {
            let ghost held = self@;
            let ghost earlier = old(self)@ + all.subrange(0, i as int);
            self.total_string.push(received[i].clone());
            assert(self@ =~= held + seq![all[i as int]]);
            self.evict();
            proof {
                assert(earlier + seq![all[i as int]] =~= old(self)@ + all.subrange(0, i + 1));
                if i == 0 {
                    assert(earlier =~= old(self)@);
                } else {
                    lemma_last_lines_in_batches(earlier, seq![all[i as int]], cap);
                }
            }
            i += 1;
        }
        assert(all.subrange(0, all.len() as int) =~= all);
    }

    /// The lines that are held, with a line feed between each two of them.
    pub fn console_text(&self) -> (r: String)
        ensures
            r@ == joined(self@, seq!['\n']),
    {
        proof {
            reveal_strlit("\n");
        }
        assert("\n"@ =~= seq!['\n']);
        let mut out = String::new();
        let mut i: usize = 0;
        assert(self@.subrange(0, 0) =~= Seq::<Seq<char>>::empty());
        while i < self.total_string.len()
            invariant
                i <= self.total_string.len(),
                "\n"@ == seq!['\n'],
                out@ == joined(self@.subrange(0, i as int), seq!['\n']),
            decreases self.total_string.len() - i,
        {
            let ghost next = self@.subrange(0, i + 1);
            assert(next.drop_last() =~= self@.subrange(0, i as int));
            assert(next.last() == self.total_string@[i as int]@);
            if i > 0 {
                out.append("\n");
            }
            out.append(self.total_string[i].as_str());
            assert(out@ =~= joined(next, seq!['\n']));
            i += 1;
        }
        assert(self@.subrange(0, self@.len() as int) =~= self@);
        out
    }
}

} // verus!
