//! A visibility-scoped container: child parts shown only on the listed
//! overlay frames.

use vstd::prelude::*;

use crate::text::{concat_map, lemma_concat_map_take_step, spec_decimal};
use crate::tikz_part::TikzPart;

verus! {

/// A container of drawing parts gated by a set of frame indices.  The
/// frame list keeps the order in which distinct indices were added; a
/// repeated index is dropped.
#[derive(Debug)]
pub struct Visible {
    pub frames: Vec<u32>,
    pub inner: Vec<TikzPart>,
}

/// Frame insertion: append the index unless it is already present.
pub open spec fn spec_frame_insert(s: Seq<u32>, f: u32) -> Seq<u32> {
    if s.contains(f) {
        s
    } else {
        s.push(f)
    }
}

/// The comma-separated list of frame indices, in stored order.
pub open spec fn spec_frames_text(s: Seq<u32>) -> Seq<char> {
    if s.len() == 0 {
        Seq::empty()
    } else {
        spec_decimal(s[0] as nat) + concat_map(
            s.drop_first(),
            |n: u32| ","@ + spec_decimal(n as nat),
        )
    }
}

/// The begin marker of a visibility scope, e.g. `\visible<2,3>{`.
pub open spec fn spec_visible_begin(s: Seq<u32>) -> Seq<char> {
    "\\visible<"@ + spec_frames_text(s) + ">{"@
}

impl Visible {
    /// A visibility scope with no frames and no parts.
    pub fn new() -> (r: Self)
        ensures
            r.frames@ == Seq::<u32>::empty(),
            r.inner@ == Seq::<TikzPart>::empty(),
    {
        let r = Visible { frames: Vec::new(), inner: Vec::new() };
        proof {
            assert(r.frames@ =~= Seq::<u32>::empty());
            assert(r.inner@ =~= Seq::<TikzPart>::empty());
        }
        r
    }

    /// Adds a frame index; a repeated index leaves the list unchanged.
    pub fn with_frame(self, frame: u32) -> (r: Self)
        ensures
            r.inner@ == self.inner@,
            r.frames@ == spec_frame_insert(self.frames@, frame),
    {
        let n = self.frames.len();
        let mut i: usize = 0;
        while i < n
            invariant
                0 <= i <= n,
                n == self.frames@.len(),
                forall|j: int| 0 <= j < i ==> self.frames@[j] != frame,
            decreases n - i,
        {
            if self.frames[i] == frame {
                proof {
                    assert(self.frames@.contains(frame));
                }
                return self;
            }
            i += 1;
        }
        proof {
            assert(!self.frames@.contains(frame));
        }
        let mut s = self;
        s.frames.push(frame);
        s
    }

    /// Appends a child part; children keep their insertion order.
    pub fn with_part(self, part: TikzPart) -> (r: Self)
        ensures
            r.frames@ == self.frames@,
            r.inner@ == self.inner@.push(part),
    {
        let mut s = self;
        s.inner.push(part);
        s
    }

    /// The begin marker line text of this scope.
    pub fn begin_text(&self) -> (r: String)
        ensures
            r@ == spec_visible_begin(self.frames@),
    {
        let mut s = String::from_str("\\visible<");
        if self.frames.len() > 0 {
            let d = crate::text::decimal_string(self.frames[0]);
            s.append(d.as_str());
            let ghost tail = self.frames@.drop_first();
            let ghost ffrag = |n: u32| ","@ + spec_decimal(n as nat);
            proof {
                assert(tail.subrange(0, 0) =~= Seq::<u32>::empty());
            }
            let mut j: usize = 1;
            while j < self.frames.len()
                invariant
                    1 <= j <= self.frames@.len(),
                    self.frames@.len() > 0,
                    tail == self.frames@.drop_first(),
                    ffrag == (|n: u32| ","@ + spec_decimal(n as nat)),
                    s@ =~= "\\visible<"@ + spec_decimal(self.frames@[0] as nat) + concat_map(
                        tail.subrange(0, j - 1),
                        ffrag,
                    ),
                decreases self.frames@.len() - j,
            {
                s.append(",");
                let d = crate::text::decimal_string(self.frames[j]);
                s.append(d.as_str());
                proof {
                    assert(tail[j - 1] == self.frames@[j as int]);
                    lemma_concat_map_take_step(tail, ffrag, j - 1);
                }
                j += 1;
            }
            proof {
                assert(tail.subrange(0, tail.len() as int) =~= tail);
            }
        }
        s.append(">{");
        proof {
            assert(s@ =~= spec_visible_begin(self.frames@));
        }
        s
    }
}

} // verus!
