use vstd::prelude::*;

verus! {

/// A free-form parameter value: a float (as its IEEE-754 single bit pattern)
/// or a string.
#[derive(Debug)]
pub enum MiscValue {
    Float(u32),
    String(String),
}

/// The mathematical value of a [`MiscValue`].
pub enum MiscView {
    Float(u32),
    Text(Seq<char>),
}

impl View for MiscValue {
    type V = MiscView;

    open spec fn view(&self) -> MiscView {
        match self {
            MiscValue::Float(b) => MiscView::Float(*b),
            MiscValue::String(s) => MiscView::Text(s@),
        }
    }
}

impl MiscValue {
    /// A copy with the same value.
    pub fn duplicate(&self) -> (r: MiscValue)
        ensures
            r@ == self@,
    {
        match self {
            MiscValue::Float(b) => MiscValue::Float(*b),
            MiscValue::String(s) => MiscValue::String(s.clone()),
        }
    }
}

/// One change to a note's parameters. Pitch (Hz), amplitude and articulation
/// (both in 0..1) are IEEE-754 single bit patterns.
#[derive(Debug)]
pub enum NoteParam {
    Pitch(u32),
    Amplitude(u32),
    Articulation(u32),
    Other(String, MiscValue),
}

/// The bit pattern of 440.0, the default pitch.
pub const DEFAULT_PITCH_BITS: u32 = 0x43dc_0000;

/// The bit pattern of 0.1, the default amplitude.
pub const DEFAULT_AMPLITUDE_BITS: u32 = 0x3dcc_cccd;

/// The bit pattern of 0.5, the default articulation.
pub const DEFAULT_ARTICULATION_BITS: u32 = 0x3f00_0000;

/// The parameters a note sounds with.
#[derive(Debug)]
pub struct NoteParams {
    pub pitch: u32,
    pub amplitude: u32,
    pub articulation: u32,
    /// Named extra parameters, each name at most once.
    pub other: Vec<(String, MiscValue)>,
}

/// The named extra parameters as a map; a later entry wins over an earlier one.
pub open spec fn other_map(s: Seq<(String, MiscValue)>) -> Map<Seq<char>, MiscView>
    decreases s.len(),
{
    if s.len() == 0 {
        Map::empty()
    } else {
        other_map(s.drop_last()).insert(s.last().0@, s.last().1@)
    }
}

/// No name occurs twice.
pub open spec fn names_unique(s: Seq<(String, MiscValue)>) -> bool {
    forall|i: int, j: int| 0 <= i < j < s.len() ==> s[i].0@ != s[j].0@
}

proof fn lemma_other_map_update(s: Seq<(String, MiscValue)>, i: int, e: (String, MiscValue))
    requires
        names_unique(s),
        0 <= i < s.len(),
        s[i].0@ == e.0@,
    ensures
        other_map(s.update(i, e)) == other_map(s).insert(e.0@, e.1@),
        names_unique(s.update(i, e)),
    decreases s.len(),
{
    let t = s.update(i, e);
    if i == s.len() - 1 {
        assert(t.drop_last() =~= s.drop_last());
        assert(other_map(t) =~= other_map(s).insert(e.0@, e.1@));
    } else {
        assert(t.drop_last() =~= s.drop_last().update(i, e));
        lemma_other_map_update(s.drop_last(), i, e);
        assert(s.last().0@ != e.0@);
        assert(other_map(t) =~= other_map(s).insert(e.0@, e.1@));
    }
}

proof fn lemma_other_map_congruent(a: Seq<(String, MiscValue)>, b: Seq<(String, MiscValue)>)
    requires
        a.len() == b.len(),
        forall|j: int| 0 <= j < a.len() ==> a[j].0@ == b[j].0@ && a[j].1@ == b[j].1@,
    ensures
        other_map(a) == other_map(b),
    decreases a.len(),
{
    if a.len() > 0 {
        lemma_other_map_congruent(a.drop_last(), b.drop_last());
    }
}

impl NoteParams {
    /// The named extra parameters.
    pub open spec fn other_spec(&self) -> Map<Seq<char>, MiscView> {
        other_map(self.other@)
    }

    pub open spec fn wf(&self) -> bool {
        names_unique(self.other@)
    }

    /// Two parameter sets carry the same values.
    pub open spec fn same(&self, o: &NoteParams) -> bool {
        &&& self.pitch == o.pitch
        &&& self.amplitude == o.amplitude
        &&& self.articulation == o.articulation
        &&& self.other_spec() == o.other_spec()
    }

    /// `self` is `before` with `param` applied: the named field holds the new
    /// value and every other field is unchanged.
    pub open spec fn applied_from(&self, before: &NoteParams, param: NoteParam) -> bool {
        &&& self.pitch == (if let NoteParam::Pitch(v) = param { v } else { before.pitch })
        &&& self.amplitude == (if let NoteParam::Amplitude(v) = param {
            v
        } else {
            before.amplitude
        })
        &&& self.articulation == (if let NoteParam::Articulation(v) = param {
            v
        } else {
            before.articulation
        })
        &&& self.other_spec() == (if let NoteParam::Other(k, v) = param {
            before.other_spec().insert(k@, v@)
        } else {
            before.other_spec()
        })
    }

    /// The defaults: pitch 440 Hz, amplitude 0.1, articulation 0.5, nothing
    /// else.
    pub fn defaults() -> (r: NoteParams)
        ensures
            r.wf(),
            r.pitch == DEFAULT_PITCH_BITS,
            r.amplitude == DEFAULT_AMPLITUDE_BITS,
            r.articulation == DEFAULT_ARTICULATION_BITS,
            r.other_spec() == Map::<Seq<char>, MiscView>::empty(),
    {
        let r = NoteParams {
            pitch: DEFAULT_PITCH_BITS,
            amplitude: DEFAULT_AMPLITUDE_BITS,
            articulation: DEFAULT_ARTICULATION_BITS,
            other: Vec::new(),
        };
        assert(r.other@.len() == 0);
        r
    }

    /// A copy carrying the same values.
    pub fn duplicate(&self) -> (r: NoteParams)
        requires
            self.wf(),
        ensures
            r.wf(),
            r.same(self),
    {
        let mut other: Vec<(String, MiscValue)> = Vec::new();
        let mut i: usize = 0;
        while i < self.other.len()
            invariant
                i <= self.other@.len(),
                other@.len() == i,
                names_unique(self.other@),
                forall|j: int|
                    0 <= j < i ==> other@[j].0@ == self.other@[j].0@ && other@[j].1@
                        == self.other@[j].1@,
            decreases self.other@.len() - i,
        {
            let e = (self.other[i].0.clone(), self.other[i].1.duplicate());
            other.push(e);
            i = i + 1;
        }
        proof {
            lemma_other_map_congruent(other@, self.other@);
        }
        NoteParams {
            pitch: self.pitch,
            amplitude: self.amplitude,
            articulation: self.articulation,
            other,
        }
    }

    /// Applies one change, field-wise: the named field takes the new value and
    /// everything else stays.
    pub fn apply(&mut self, param: NoteParam)
        requires
            old(self).wf(),
        ensures
            final(self).wf(),
            final(self).applied_from(old(self), param),
    {
        match param {
            NoteParam::Pitch(v) => self.pitch = v,
            NoteParam::Amplitude(v) => self.amplitude = v,
            NoteParam::Articulation(v) => self.articulation = v,
            NoteParam::Other(k, v) => {
                let ghost kv = k@;
                let ghost vv = v@;
                let mut i: usize = 0;
                while i < self.other.len()
                    invariant
                        i <= self.other@.len(),
                        forall|j: int| 0 <= j < i ==> self.other@[j].0@ != kv,
                        kv == k@,
                    ensures
                        i <= self.other@.len(),
                        i < self.other@.len() ==> self.other@[i as int].0@ == kv,
                        forall|j: int| 0 <= j < i ==> self.other@[j].0@ != kv,
                    decreases self.other@.len() - i,
                {
                    let same: bool = self.other[i].0.eq(&k);
                    if same {
                        break;
                    }
                    i = i + 1;
                }
                if i < self.other.len() {
                    proof {
                        lemma_other_map_update(self.other@, i as int, (k, v));
                    }
                    self.other.set(i, (k, v));
                } else {
                    proof {
                        let s = self.other@.push((k, v));
                        assert(s.drop_last() =~= self.other@);
                    }
                    self.other.push((k, v));
                }
            },
        }
    }
}

impl Default for NoteParams {
    fn default() -> (r: NoteParams)
        ensures
            r.wf(),
            r.pitch == DEFAULT_PITCH_BITS,
            r.amplitude == DEFAULT_AMPLITUDE_BITS,
            r.articulation == DEFAULT_ARTICULATION_BITS,
            r.other_spec() == Map::<Seq<char>, MiscView>::empty(),
    {
        NoteParams::defaults()
    }
}

} // verus!
