//! The single consumer of the merged event stream: colors by source,
//! trims lines for display, and tracks which producers are still live.
use vstd::prelude::*;
use crate::tailer::{LineEvent, TailerState, TailerEvent, next_state, StopReason};
use crate::detector::Signal;

verus! {

/// A display color.
#[derive(Clone, Copy, Debug, PartialEq, Eq, Structural)]
pub struct Rgb {
    pub r: u8,
    pub g: u8,
    pub b: u8,
}

/// Number of colors in the palette.
pub const PALETTE_LEN: usize = 8;

/// The palette: eight fixed hues taken in turn around the color wheel.
pub open spec fn palette(k: int) -> Rgb {
    if k == 0 {
        Rgb { r: 230, g: 57, b: 57 }
    } else if k == 1 {
        Rgb { r: 230, g: 165, b: 57 }
    } else if k == 2 {
        Rgb { r: 165, g: 230, b: 57 }
    } else if k == 3 {
        Rgb { r: 57, g: 230, b: 57 }
    } else if k == 4 {
        Rgb { r: 57, g: 230, b: 230 }
    } else if k == 5 {
        Rgb { r: 57, g: 111, b: 230 }
    } else if k == 6 {
        Rgb { r: 165, g: 57, b: 230 }
    } else {
        Rgb { r: 230, g: 57, b: 165 }
    }
}

/// The color of source `index`: the same index always gets the same color.
pub fn color_for(index: usize) -> (c: Rgb)
    ensures
        c == palette((index % PALETTE_LEN) as int),
{
    let k = index % PALETTE_LEN;
    if k == 0 {
        Rgb { r: 230, g: 57, b: 57 }
    } else if k == 1 {
        Rgb { r: 230, g: 165, b: 57 }
    } else if k == 2 {
        Rgb { r: 165, g: 230, b: 57 }
    } else if k == 3 {
        Rgb { r: 57, g: 230, b: 57 }
    } else if k == 4 {
        Rgb { r: 57, g: 230, b: 230 }
    } else if k == 5 {
        Rgb { r: 57, g: 111, b: 230 }
    } else if k == 6 {
        Rgb { r: 165, g: 57, b: 230 }
    } else {
        Rgb { r: 230, g: 57, b: 165 }
    }
}

/// ASCII whitespace: space, tab, line feed, vertical tab, form feed,
/// carriage return.
pub open spec fn is_blank(b: u8) -> bool {
    b == 32 || (9 <= b && b <= 13)
}

/// `s` without its trailing whitespace.
pub open spec fn trim_end(s: Seq<u8>) -> Seq<u8>
    decreases s.len(),
{
    if s.len() > 0 && is_blank(s.last()) {
        trim_end(s.drop_last())
    } else {
        s
    }
}

/// Whether `b` is ASCII whitespace.
pub fn is_blank_byte(b: u8) -> (r: bool)
    ensures
        r == is_blank(b),
{
    b == 32 || (9 <= b && b <= 13)
}

/// Copies `text` without its trailing whitespace.
pub fn trim_trailing_whitespace(text: &[u8]) -> (r: Vec<u8>)
    ensures
        r@ == trim_end(text@),
{
    let mut end: usize = text.len();
    proof {
        assert(text@.subrange(0, end as int) =~= text@);
    }
    while end > 0 && is_blank_byte(text[end - 1])
        invariant
            end <= text@.len(),
            trim_end(text@) == trim_end(text@.subrange(0, end as int)),
        decreases end,
    {
        proof {
            assert(text@.subrange(0, end as int).drop_last() =~= text@.subrange(0, end - 1));
        }
        end = end - 1;
    }
    let mut r: Vec<u8> = Vec::new();
    let mut i: usize = 0;
    while i < end
        invariant
            i <= end <= text@.len(),
            r@ == text@.subrange(0, i as int),
        decreases end - i,
    {
        r.push(text[i]);
        proof {
            assert(text@.subrange(0, i + 1) =~= text@.subrange(0, i as int).push(text@[i as int]));
        }
        i = i + 1;
    }
    r
}

/// A line ready for display: the source's color and path, and the text.
pub struct Rendered {
    pub color: Rgb,
    pub path: String,
    pub text: Vec<u8>,
}

/// The lines of source `i`, in the order they arrived in `log`.
pub open spec fn project(log: Seq<(usize, Seq<u8>)>, i: usize) -> Seq<Seq<u8>>
    decreases log.len(),
{
    if log.len() == 0 {
        Seq::empty()
    } else if log.last().0 == i {
        project(log.drop_last(), i).push(log.last().1)
    } else {
        project(log.drop_last(), i)
    }
}

/// `lines` tagged with source `i`.
pub open spec fn tagged(i: usize, lines: Seq<Seq<u8>>) -> Seq<(usize, Seq<u8>)> {
    lines.map(|_k: int, l: Seq<u8>| (i, l))
}

/// `log` merges `a` and `b`, each kept in its own order.
pub open spec fn is_interleaving(
    log: Seq<(usize, Seq<u8>)>,
    a: Seq<(usize, Seq<u8>)>,
    b: Seq<(usize, Seq<u8>)>,
) -> bool
    decreases log.len(),
{
    if log.len() == 0 {
        a.len() == 0 && b.len() == 0
    } else {
        ||| (a.len() > 0 && log.last() == a.last() && is_interleaving(
            log.drop_last(),
            a.drop_last(),
            b,
        ))
        ||| (b.len() > 0 && log.last() == b.last() && is_interleaving(
            log.drop_last(),
            a,
            b.drop_last(),
        ))
    }
}

/// Whatever the arrival order of two sources' events at the sink, the
/// lines seen for each source are that source's lines in their own order.
pub proof fn lemma_interleaving_keeps_source_order(
    log: Seq<(usize, Seq<u8>)>,
    i: usize,
    xs: Seq<Seq<u8>>,
    j: usize,
    ys: Seq<Seq<u8>>,
)
    requires
        i != j,
        is_interleaving(log, tagged(i, xs), tagged(j, ys)),
    ensures
        project(log, i) == xs,
        project(log, j) == ys,
    decreases log.len(),
{
    if log.len() == 0 {
        assert(xs =~= Seq::<Seq<u8>>::empty());
        assert(ys =~= Seq::<Seq<u8>>::empty());
    } else {
        let a = tagged(i, xs);
        let b = tagged(j, ys);
        if a.len() > 0 && log.last() == a.last() && is_interleaving(log.drop_last(), a.drop_last(), b) {
            assert(a.drop_last() =~= tagged(i, xs.drop_last()));
            lemma_interleaving_keeps_source_order(log.drop_last(), i, xs.drop_last(), j, ys);
            assert(xs.drop_last().push(xs.last()) =~= xs);
        } else {
            assert(b.drop_last() =~= tagged(j, ys.drop_last()));
            lemma_interleaving_keeps_source_order(log.drop_last(), i, xs, j, ys.drop_last());
            assert(ys.drop_last().push(ys.last()) =~= ys);
        }
    }
}

/// Producer `i` has left.
pub open spec fn retire(live: Seq<bool>, i: int) -> Seq<bool> {
    live.update(i, false)
}

/// The stream is closed once no producer is live.
pub open spec fn all_done(live: Seq<bool>) -> bool {
    forall|k: int| 0 <= k < live.len() ==> !live[k]
}

/// Removing one tailed file stops its own tailer only: any other source that
/// was live stays live, and the merged stream stays open for it.
pub proof fn lemma_removal_stops_only_its_source(
    live: Seq<bool>,
    i: int,
    j: int,
    watching: TailerState,
)
    requires
        0 <= i < live.len(),
        0 <= j < live.len(),
        i != j,
        live[j],
        watching == TailerState::Idle || watching == TailerState::Draining,
    ensures
        next_state(watching, TailerEvent::Changed(Signal::Removed)) == TailerState::Terminated(
            StopReason::Removed,
        ),
        retire(live, i)[j],
        !all_done(retire(live, i)),
{
}

/// The consumer end of the merged stream.
pub struct Sink {
    live: Vec<bool>,
    arrived: Ghost<Seq<(usize, Seq<u8>)>>,
}

impl Sink {
    /// Which producers are still live.
    pub closed spec fn live_spec(&self) -> Seq<bool> {
        self.live@
    }

    /// Every event accepted so far, as (source, line), in arrival order.
    pub closed spec fn arrived_spec(&self) -> Seq<(usize, Seq<u8>)> {
        self.arrived@
    }

    /// A sink for `producers` sources, all live, with nothing arrived yet.
    pub fn new(producers: usize) -> (s: Sink)
        ensures
            s.live_spec().len() == producers,
            forall|k: int| 0 <= k < producers ==> #[trigger] s.live_spec()[k],
            s.arrived_spec() == Seq::<(usize, Seq<u8>)>::empty(),
    {
        let mut live: Vec<bool> = Vec::new();
        let mut i: usize = 0;
        while i < producers
            invariant
                i <= producers,
                live@.len() == i,
                forall|k: int| 0 <= k < i ==> #[trigger] live@[k],
            decreases producers - i,
        {
            live.push(true);
            i = i + 1;
        }
        Sink { live, arrived: Ghost(Seq::empty()) }
    }

    /// Takes one event: it joins the arrival log and comes back ready for
    /// display, colored by its source, its text without trailing whitespace.
    pub fn accept(&mut self, event: LineEvent) -> (r: Rendered)
        ensures
            final(self).arrived_spec() == old(self).arrived_spec().push(
                (event.source_index, event.text@),
            ),
            final(self).live_spec() == old(self).live_spec(),
            r.color == palette((event.source_index % PALETTE_LEN) as int),
            r.path@ == event.path@,
            r.text@ == trim_end(event.text@),
    {
        self.arrived = Ghost(self.arrived@.push((event.source_index, event.text@)));
        let color = color_for(event.source_index);
        let text = trim_trailing_whitespace(event.text.as_slice());
        Rendered { color, path: event.path, text }
    }

    /// Producer `index` has terminated and disconnected.
    pub fn producer_done(&mut self, index: usize)
        ensures
            final(self).arrived_spec() == old(self).arrived_spec(),
            index < old(self).live_spec().len() ==> final(self).live_spec() == retire(
                old(self).live_spec(),
                index as int,
            ),
            index >= old(self).live_spec().len() ==> final(self).live_spec()
                == old(self).live_spec(),
    {
        if index < self.live.len() {
            self.live.set(index, false);
        }
    }

    /// Whether every producer has terminated: only then is the stream
    /// closed.
    pub fn is_closed(&self) -> (r: bool)
        ensures
            r == all_done(self.live_spec()),
    {
        let mut i: usize = 0;
        while i < self.live.len()
            invariant
                i <= self.live@.len(),
                forall|k: int| 0 <= k < i ==> !self.live@[k],
            decreases self.live@.len() - i,
        {
            if self.live[i] {
                return false;
            }
            i = i + 1;
        }
        true
    }
}

} // verus!
