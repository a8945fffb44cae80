use crate::value::{Value, ValueModel};
use vstd::prelude::*;

verus! {

/// One variable binding of a frame.
pub struct Binding {
    pub name: String,
    pub value: Value,
}

/// The variables of a frame: a later binding of a name overrides an earlier
/// one.
pub open spec fn frame_map(f: Seq<Binding>) -> Map<Seq<char>, ValueModel>
    decreases f.len(),
{
    if f.len() == 0 {
        Map::empty()
    } else {
        frame_map(f.drop_last()).insert(f.last().name@, f.last().value@)
    }
}

/// The value of a variable: from the innermost frame that holds it.
pub open spec fn lookup_spec(frames: Seq<Map<Seq<char>, ValueModel>>, name: Seq<char>) -> Option<
    ValueModel,
>
    decreases frames.len(),
{
    if frames.len() == 0 {
        None
    } else if frames.last().contains_key(name) {
        Some(frames.last()[name])
    } else {
        lookup_spec(frames.drop_last(), name)
    }
}

/// The innermost frame that holds `name`, or -1.
pub open spec fn nearest_frame(frames: Seq<Map<Seq<char>, ValueModel>>, name: Seq<char>) -> int
    decreases frames.len(),
{
    if frames.len() == 0 {
        -1
    } else if frames.last().contains_key(name) {
        frames.len() - 1
    } else {
        nearest_frame(frames.drop_last(), name)
    }
}

/// A variable write: to the innermost frame that already holds the name, or
/// else to the current (innermost) frame.
pub open spec fn insert_var_spec(
    frames: Seq<Map<Seq<char>, ValueModel>>,
    name: Seq<char>,
    v: ValueModel,
) -> Seq<Map<Seq<char>, ValueModel>> {
    let i = if nearest_frame(frames, name) >= 0 {
        nearest_frame(frames, name)
    } else {
        frames.len() - 1
    };
    frames.update(i, frames[i].insert(name, v))
}

/// The lexical environment: a stack of frames, the global one first.
pub struct Scope {
    frames: Vec<Vec<Binding>>,
}

impl View for Scope {
    type V = Seq<Map<Seq<char>, ValueModel>>;

    closed spec fn view(&self) -> Seq<Map<Seq<char>, ValueModel>> {
        self.frames@.map_values(|f: Vec<Binding>| frame_map(f@))
    }
}

proof fn lemma_nearest_frame_bounds(frames: Seq<Map<Seq<char>, ValueModel>>, name: Seq<char>)
    ensures
        -1 <= nearest_frame(frames, name) < frames.len(),
        nearest_frame(frames, name) >= 0 ==> frames[nearest_frame(frames, name)].contains_key(name),
        forall|j: int|
            nearest_frame(frames, name) < j < frames.len() ==> !(#[trigger] frames[j]).contains_key(
                name,
            ),
    decreases frames.len(),
{
    if frames.len() > 0 && !frames.last().contains_key(name) {
        lemma_nearest_frame_bounds(frames.drop_last(), name);
        assert forall|j: int|
            nearest_frame(frames, name) < j < frames.len() implies !(
            #[trigger] frames[j]).contains_key(name) by {
            if j < frames.len() - 1 {
                assert(frames[j] == frames.drop_last()[j]);
            }
        }
    }
}

/// The last binding of `name` in a frame, or -1.
pub open spec fn last_index(f: Seq<Binding>, name: Seq<char>) -> int
    decreases f.len(),
{
    if f.len() == 0 {
        -1
    } else if f.last().name@ == name {
        f.len() - 1
    } else {
        last_index(f.drop_last(), name)
    }
}

proof fn lemma_last_index(f: Seq<Binding>, name: Seq<char>)
    ensures
        -1 <= last_index(f, name) < f.len(),
        last_index(f, name) >= 0 ==> f[last_index(f, name)].name@ == name,
        forall|k: int| last_index(f, name) < k < f.len() ==> (#[trigger] f[k]).name@ != name,
        frame_map(f).contains_key(name) <==> last_index(f, name) >= 0,
        last_index(f, name) >= 0 ==> frame_map(f)[name] == f[last_index(f, name)].value@,
    decreases f.len(),
{
    if f.len() > 0 {
        lemma_last_index(f.drop_last(), name);
        assert forall|k: int| last_index(f, name) < k < f.len() implies (#[trigger] f[k]).name@
            != name by {
            if k < f.len() - 1 {
                assert(f[k] == f.drop_last()[k]);
            }
        }
        if f.last().name@ != name && last_index(f, name) >= 0 {
            assert(f[last_index(f, name)] == f.drop_last()[last_index(f, name)]);
        }
    }
}

proof fn lemma_lookup_nearest(frames: Seq<Map<Seq<char>, ValueModel>>, name: Seq<char>)
    ensures
        nearest_frame(frames, name) >= 0 ==> lookup_spec(frames, name) == Some(
            frames[nearest_frame(frames, name)][name],
        ),
        nearest_frame(frames, name) < 0 ==> lookup_spec(frames, name) is None,
    decreases frames.len(),
{
    if frames.len() > 0 && !frames.last().contains_key(name) {
        lemma_lookup_nearest(frames.drop_last(), name);
        lemma_nearest_frame_bounds(frames.drop_last(), name);
        if nearest_frame(frames, name) >= 0 {
            assert(frames[nearest_frame(frames, name)] == frames.drop_last()[nearest_frame(
                frames,
                name,
            )]);
        }
    }
}

/// Where the last binding of `name` in a frame stands.
fn find_in_frame(frame: &Vec<Binding>, name: &String) -> (r: Option<usize>)
    ensures
        match r {
            Some(j) => j as int == last_index(frame@, name@),
            None => last_index(frame@, name@) < 0,
        },
{
    proof {
        lemma_last_index(frame@, name@);
    }
    let mut j: usize = frame.len();
    while j > 0
        invariant
            0 <= j <= frame@.len(),
            forall|k: int| j <= k < frame@.len() ==> (#[trigger] frame@[k]).name@ != name@,
        decreases j,
    {
        if frame[j - 1].name == *name {
            proof {
                lemma_last_index(frame@, name@);
                let li = last_index(frame@, name@);
                assert(frame@[j - 1].name@ == name@);
                if li < j - 1 {
                    assert(frame@[j - 1].name@ != name@);
                } else if li > j - 1 {
                    assert(frame@[li].name@ != name@);
                }
            }
            return Some(j - 1);
        }
        j -= 1;
    }
    None
}

impl Scope {
    /// A scope with the global frame alone, empty.
    pub fn new() -> (r: Scope)
        ensures
            r@ == seq![Map::<Seq<char>, ValueModel>::empty()],
    {
        let mut frames: Vec<Vec<Binding>> = Vec::new();
        frames.push(Vec::new());
        let r = Scope { frames };
        assert(r@ =~= seq![Map::<Seq<char>, ValueModel>::empty()]);
        r
    }

    /// Opens a frame for a block, a mixin or a function body.
    pub fn push_frame(&mut self)
        ensures
            final(self)@ == old(self)@.push(Map::empty()),
    {
        self.frames.push(Vec::new());
        assert(self@ =~= old(self)@.push(Map::empty()));
    }

    /// Closes the innermost frame; the global frame stays.
    pub fn pop_frame(&mut self)
        requires
            old(self)@.len() > 1,
        ensures
            final(self)@ == old(self)@.drop_last(),
    {
        self.frames.pop();
        assert(self@ =~= old(self)@.drop_last());
    }

    /// The innermost frame holding `name`, and the place of its last
    /// binding there.
    fn find(&self, name: &String) -> (r: Option<(usize, usize)>)
        ensures
            match r {
                Some((i, j)) => {
                    &&& i as int == nearest_frame(self@, name@)
                    &&& i < self.frames@.len()
                    &&& j as int == last_index(self.frames@[i as int]@, name@)
                },
                None => nearest_frame(self@, name@) < 0,
            },
    {
        proof {
            lemma_nearest_frame_bounds(self@, name@);
        }
        let mut i: usize = self.frames.len();
        while i > 0
            invariant
                0 <= i <= self.frames@.len(),
                self@.len() == self.frames@.len(),
                nearest_frame(self@, name@) < i,
            decreases i,
        {
            let found = find_in_frame(&self.frames[i - 1], name);
            proof {
                lemma_nearest_frame_bounds(self@, name@);
                lemma_last_index(self.frames@[i - 1]@, name@);
                assert(self@[i - 1] == frame_map(self.frames@[i - 1]@));
            }
            if let Some(j) = found {
                proof {
                    let n = nearest_frame(self@, name@);
                    assert(self@[i - 1].contains_key(name@));
                    if n < i - 1 {
                        assert(!self@[i - 1].contains_key(name@));
                    }
                }
                return Some((i - 1, j));
            }
            proof {
                let n = nearest_frame(self@, name@);
                assert(!self@[i - 1].contains_key(name@));
                if n == i - 1 {
                    assert(self@[n].contains_key(name@));
                }
            }
            i -= 1;
        }
        None
    }

    /// The value of a variable, from the innermost frame that holds it.
    pub fn lookup(&self, name: &str) -> (r: Option<Value>)
        ensures
            match r {
                Some(v) => lookup_spec(self@, name@) == Some(v@),
                None => lookup_spec(self@, name@) is None,
            },
    {
        proof {
            lemma_lookup_nearest(self@, name@);
        }
        let key = String::from_str(name);
        match self.find(&key) {
            Some((i, j)) => {
                proof {
                    lemma_last_index(self.frames@[i as int]@, name@);
                    assert(self@[i as int] == frame_map(self.frames@[i as int]@));
                }
                Some(self.frames[i][j].value.copy())
            },
            None => None,
        }
    }

    /// Writes a variable to the innermost frame that holds it, or else to
    /// the innermost frame.
    pub fn insert_var(&mut self, name: &str, value: Value)
        requires
            old(self)@.len() > 0,
        ensures
            final(self)@ == insert_var_spec(old(self)@, name@, value@),
            final(self)@.len() == old(self)@.len(),
    {
        let ghost frames = self@;
        let key = String::from_str(name);
        let idx = match self.find(&key) {
            Some((i, _)) => i,
            None => self.frames.len() - 1,
        };
        let ghost old_frame = self.frames@[idx as int];
        self.frames[idx].push(Binding { name: key, value });
        assert(self.frames@[idx as int]@.drop_last() =~= old_frame@);
        assert(self@ =~= insert_var_spec(frames, name@, value@));
    }

    /// Writes a variable to the global frame.
    pub fn insert_global(&mut self, name: &str, value: Value)
        requires
            old(self)@.len() > 0,
        ensures
            final(self)@ == old(self)@.update(0, old(self)@[0].insert(name@, value@)),
    {
        let ghost old_frame = self.frames@[0];
        self.frames[0].push(Binding { name: String::from_str(name), value });
        assert(self.frames@[0 as int]@.drop_last() =~= old_frame@);
        assert(self@ =~= old(self)@.update(0, old(self)@[0].insert(name@, value@)));
    }
}

} // verus!

verus! {

proof fn lemma_nearest_absent(frames: Seq<Map<Seq<char>, ValueModel>>, name: Seq<char>)
    requires
        forall|i: int| 0 <= i < frames.len() ==> !(#[trigger] frames[i]).contains_key(name),
    ensures
        nearest_frame(frames, name) == -1,
        lookup_spec(frames, name) is None,
    decreases frames.len(),
{
    if frames.len() > 0 {
        assert(!frames[frames.len() - 1].contains_key(name));
        assert forall|i: int| 0 <= i < frames.drop_last().len() implies !(
        #[trigger] frames.drop_last()[i]).contains_key(name) by {
            assert(frames.drop_last()[i] == frames[i]);
        }
        lemma_nearest_absent(frames.drop_last(), name);
    }
}

/// A variable first written inside a block, where no enclosing frame holds
/// it, lives in the block's own frame: it is visible there, and once that
/// frame is popped the enclosing frames are as they were and do not hold it.
pub proof fn lemma_block_local_variable(
    frames: Seq<Map<Seq<char>, ValueModel>>,
    name: Seq<char>,
    v: ValueModel,
)
    requires
        frames.len() > 0,
        forall|i: int| 0 <= i < frames.len() ==> !(#[trigger] frames[i]).contains_key(name),
    ensures
        lookup_spec(insert_var_spec(frames.push(Map::empty()), name, v), name) == Some(v),
        insert_var_spec(frames.push(Map::empty()), name, v).drop_last() == frames,
        lookup_spec(insert_var_spec(frames.push(Map::empty()), name, v).drop_last(), name) is None,
{
    let pushed = frames.push(Map::empty());
    assert forall|i: int| 0 <= i < pushed.len() implies !(#[trigger] pushed[i]).contains_key(
        name,
    ) by {
        if i < frames.len() {
            assert(pushed[i] == frames[i]);
        }
    }
    lemma_nearest_absent(pushed, name);
    lemma_nearest_absent(frames, name);
    let after = insert_var_spec(pushed, name, v);
    assert(after.drop_last() =~= frames);
}

} // verus!
