//! The scope stack: a non-empty stack of name-to-payload frames. It is used
//! once with `Type` payloads by the typing pass and once with `Value`
//! payloads by the evaluator.
use vstd::prelude::*;
use crate::errors::ZyxtError;
use crate::errors::error_3_0;
use crate::position::Position;

verus! {

/// A stack of lexical frames. Each frame maps names to payloads; bindings
/// within a frame are kept newest first, so a redeclared name shadows the
/// older binding.
#[derive(Debug)]
pub struct Varstack<P> {
    pub frames: Vec<Vec<(String, P)>>,
}

impl<P> View for Varstack<P> {
    type V = Seq<Seq<(Seq<char>, P)>>;

    open spec fn view(&self) -> Seq<Seq<(Seq<char>, P)>> {
        self.frames@.map_values(
            |f: Vec<(String, P)>| f@.map_values(|e: (String, P)| (e.0@, e.1)),
        )
    }
}

/// The newest binding of `n` within one frame.
pub open spec fn frame_find<P>(f: Seq<(Seq<char>, P)>, n: Seq<char>) -> Option<P>
    decreases f.len(),
{
    if f.len() == 0 {
        None
    } else if f[0].0 == n {
        Some(f[0].1)
    } else {
        frame_find(f.skip(1), n)
    }
}

/// The binding of `n` in the innermost frame that has one.
pub open spec fn stack_find<P>(s: Seq<Seq<(Seq<char>, P)>>, n: Seq<char>) -> Option<P>
    decreases s.len(),
{
    if s.len() == 0 {
        None
    } else {
        match frame_find(s.last(), n) {
            Some(v) => Some(v),
            None => stack_find(s.drop_last(), n),
        }
    }
}

/// Whether `n` is bound anywhere on the stack.
pub open spec fn stack_contains<P>(s: Seq<Seq<(Seq<char>, P)>>, n: Seq<char>) -> bool {
    stack_find(s, n) is Some
}

/// Pushing a fresh empty frame.
pub open spec fn stack_add<P>(s: Seq<Seq<(Seq<char>, P)>>) -> Seq<Seq<(Seq<char>, P)>> {
    s.push(Seq::empty())
}

/// Discarding the innermost frame.
pub open spec fn stack_pop<P>(s: Seq<Seq<(Seq<char>, P)>>) -> Seq<Seq<(Seq<char>, P)>> {
    s.drop_last()
}

/// Declaring `n = v` in the innermost frame.
pub open spec fn stack_declare<P>(s: Seq<Seq<(Seq<char>, P)>>, n: Seq<char>, v: P) -> Seq<
    Seq<(Seq<char>, P)>,
> {
    s.update(s.len() - 1, seq![(n, v)].add(s.last()))
}

/// One frame with the newest binding of `n` replaced by `v`.
pub open spec fn frame_set<P>(f: Seq<(Seq<char>, P)>, n: Seq<char>, v: P) -> Seq<(Seq<char>, P)>
    decreases f.len(),
{
    if f.len() == 0 {
        f
    } else if f[0].0 == n {
        f.update(0, (n, v))
    } else {
        seq![f[0]].add(frame_set(f.skip(1), n, v))
    }
}

/// The stack with the newest binding of `n` (in the innermost frame that
/// has one) replaced by `v`; unchanged if `n` is unbound.
pub open spec fn stack_set<P>(s: Seq<Seq<(Seq<char>, P)>>, n: Seq<char>, v: P) -> Seq<
    Seq<(Seq<char>, P)>,
>
    decreases s.len(),
{
    if s.len() == 0 {
        s
    } else if frame_find(s.last(), n) is Some {
        s.update(s.len() - 1, frame_set(s.last(), n, v))
    } else {
        stack_set(s.drop_last(), n, v).push(s.last())
    }
}

/// One frame with the newest binding of `n` removed.
pub open spec fn frame_remove<P>(f: Seq<(Seq<char>, P)>, n: Seq<char>) -> Seq<(Seq<char>, P)>
    decreases f.len(),
{
    if f.len() == 0 {
        f
    } else if f[0].0 == n {
        f.skip(1)
    } else {
        seq![f[0]].add(frame_remove(f.skip(1), n))
    }
}

/// The stack with the newest binding of `n` removed from the innermost
/// frame that has one; unchanged if `n` is unbound.
pub open spec fn stack_delete<P>(s: Seq<Seq<(Seq<char>, P)>>, n: Seq<char>) -> Seq<
    Seq<(Seq<char>, P)>,
>
    decreases s.len(),
{
    if s.len() == 0 {
        s
    } else if frame_find(s.last(), n) is Some {
        s.update(s.len() - 1, frame_remove(s.last(), n))
    } else {
        stack_delete(s.drop_last(), n).push(s.last())
    }
}

/// Scanning a frame past bindings of other names does not change what is
/// found.
pub proof fn lemma_frame_find_skip<P>(f: Seq<(Seq<char>, P)>, n: Seq<char>, j: int)
    requires
        0 <= j <= f.len(),
        forall|k: int| 0 <= k < j ==> f[k].0 != n,
    ensures
        frame_find(f, n) == frame_find(f.skip(j), n),
    decreases j,
{
    if j == 0 {
        assert(f.skip(0) =~= f);
    } else {
        assert(f.skip(1).len() == f.len() - 1);
        assert(forall|k: int| 0 <= k < j - 1 ==> (#[trigger] f.skip(1)[k]) == f[k + 1]);
        lemma_frame_find_skip(f.skip(1), n, j - 1);
        assert(f.skip(1).skip(j - 1) =~= f.skip(j));
    }
}

/// Scanning the stack past frames that do not bind `n` does not change
/// what is found.
proof fn lemma_stack_find_take<P>(s: Seq<Seq<(Seq<char>, P)>>, n: Seq<char>, fi: int)
    requires
        0 <= fi <= s.len(),
        forall|k: int| fi <= k < s.len() ==> frame_find(#[trigger] s[k], n) is None,
    ensures
        stack_find(s, n) == stack_find(s.take(fi), n),
    decreases s.len() - fi,
{
    if fi == s.len() {
        assert(s.take(fi) =~= s);
    } else {
        assert(frame_find(s.last(), n) is None);
        assert(s.drop_last() =~= s.take(s.len() - 1));
        lemma_stack_find_take(s.take(s.len() - 1), n, fi);
        assert(s.take(s.len() - 1).take(fi) =~= s.take(fi));
    }
}

impl<P> Varstack<P> {
    /// A fresh stack holding one empty frame.
    pub fn new() -> (r: Self)
        ensures
            r@.len() == 1,
            r@[0] == Seq::<(Seq<char>, P)>::empty(),
    {
        let mut frames: Vec<Vec<(String, P)>> = Vec::new();
        frames.push(Vec::new());
        let r = Varstack { frames };
        proof {
            assert(r@[0] =~= Seq::<(Seq<char>, P)>::empty());
        }
        r
    }

    /// Pushes a fresh empty frame.
    pub fn add_set(&mut self)
        ensures
            final(self)@ == stack_add(old(self)@),
    {
        self.frames.push(Vec::new());
        proof {
            assert(self@ =~~= stack_add(old(self)@));
        }
    }

    /// Discards the innermost frame.
    pub fn pop_set(&mut self)
        requires
            old(self)@.len() > 0,
        ensures
            final(self)@ == stack_pop(old(self)@),
    {
        let _last = self.frames.pop();
        proof {
            assert(self@ =~~= stack_pop(old(self)@));
        }
    }

    /// Declares `name = value` in the innermost frame, shadowing any older
    /// binding of the name.
    pub fn declare_val(&mut self, name: &String, value: P)
        requires
            old(self)@.len() > 0,
        ensures
            final(self)@ == stack_declare(old(self)@, name@, value),
    {
        proof {
            assert(old(self)@.len() == old(self).frames@.len());
        }
        let mut top = self.frames.pop().unwrap();
        top.insert(0, (name.clone(), value));
        self.frames.push(top);
        proof {
            let o = old(self)@;
            assert(self@.len() == o.len());
            assert(self@[o.len() - 1] =~= seq![(name@, value)].add(o.last()));
            assert(self@ =~~= stack_declare(o, name@, value));
        }
    }

    /// Looks `name` up, innermost frame first; an unbound name is reported
    /// as error 3.0 at the given position.
    pub fn get_val(&self, name: &String, pos: &Position) -> (r: Result<&P, ZyxtError>)
        ensures
            match r {
                Ok(p) => stack_find(self@, name@) == Some(*p),
                Err(e) => {
                    &&& stack_find(self@, name@) is None
                    &&& e.code matches crate::errors::ErrorCode::UndefinedVariable { name: n }
                        && n@ == name@
                    &&& e.position matches Some(p) && p@ == pos@
                },
            },
    {
        let ghost s = self@;
        let mut fi: usize = self.frames.len();
        while fi > 0
            invariant
                0 <= fi <= self.frames@.len(),
                s == self@,
                s.len() == self.frames@.len(),
                forall|k: int| fi <= k < s.len() ==> frame_find(#[trigger] s[k], name@) is None,
            decreases fi,
        {
            fi -= 1;
            let frame = &self.frames[fi];
            let ghost fv = s[fi as int];
            proof {
                assert(fv == frame@.map_values(|e: (String, P)| (e.0@, e.1)));
            }
            let mut j: usize = 0;
            while j < frame.len()
                invariant
                    0 <= j <= frame@.len(),
                    s == self@,
                    s.len() == self.frames@.len(),
                    0 <= fi < s.len(),
                    frame == &self.frames[fi as int],
                    fv == s[fi as int],
                    fv == frame@.map_values(|e: (String, P)| (e.0@, e.1)),
                    fv.len() == frame@.len(),
                    forall|k: int| fi < k < s.len() ==> frame_find(
                        #[trigger] s[k],
                        name@,
                    ) is None,
                    forall|k: int| 0 <= k < j ==> fv[k].0 != name@,
                decreases frame@.len() - j,
            {
                if frame[j].0 == *name {
                    proof {
                        lemma_frame_find_skip(fv, name@, j as int);
                        assert(fv.skip(j as int)[0] == fv[j as int]);
                        assert(frame_find(fv, name@) == Some(fv[j as int].1));
                        lemma_stack_find_take(s, name@, fi as int + 1);
                        assert(s.take(fi as int + 1).last() == s[fi as int]);
                        assert(s.take(fi as int + 1).drop_last() =~= s.take(fi as int));
                        assert(stack_find(s, name@) == Some(fv[j as int].1));
                    }
                    return Ok(&frame[j].1);
                }
                j += 1;
            }
            proof {
                lemma_frame_find_skip(fv, name@, fv.len() as int);
                assert(fv.skip(fv.len() as int) =~= Seq::<(Seq<char>, P)>::empty());
                assert(frame_find(fv, name@) is None);
            }
        }
        proof {
            lemma_stack_find_take(s, name@, 0);
            assert(s.take(0) =~= Seq::<Seq<(Seq<char>, P)>>::empty());
        }
        Err(error_3_0(name.clone()).at(pos))
    }
}


/// Replacing the newest binding at a known spot.
proof fn lemma_frame_set_at<P>(f: Seq<(Seq<char>, P)>, n: Seq<char>, v: P, j: int)
    requires
        0 <= j < f.len(),
        f[j].0 == n,
        forall|k: int| 0 <= k < j ==> f[k].0 != n,
    ensures
        frame_set(f, n, v) == f.update(j, (n, v)),
    decreases j,
{
    if j == 0 {
        assert(frame_set(f, n, v) =~= f.update(0, (n, v)));
    } else {
        assert(forall|k: int| 0 <= k < j - 1 ==> (#[trigger] f.skip(1)[k]) == f[k + 1]);
        lemma_frame_set_at(f.skip(1), n, v, j - 1);
        assert(seq![f[0]].add(f.skip(1).update(j - 1, (n, v))) =~= f.update(j, (n, v)));
    }
}

/// Removing the newest binding at a known spot.
proof fn lemma_frame_remove_at<P>(f: Seq<(Seq<char>, P)>, n: Seq<char>, j: int)
    requires
        0 <= j < f.len(),
        f[j].0 == n,
        forall|k: int| 0 <= k < j ==> f[k].0 != n,
    ensures
        frame_remove(f, n) == f.remove(j),
    decreases j,
{
    if j == 0 {
        assert(frame_remove(f, n) =~= f.remove(0));
    } else {
        assert(forall|k: int| 0 <= k < j - 1 ==> (#[trigger] f.skip(1)[k]) == f[k + 1]);
        lemma_frame_remove_at(f.skip(1), n, j - 1);
        assert(seq![f[0]].add(f.skip(1).remove(j - 1)) =~= f.remove(j));
    }
}

/// Writing through the innermost frame that binds the name, at a known
/// frame.
proof fn lemma_stack_set_at<P>(s: Seq<Seq<(Seq<char>, P)>>, n: Seq<char>, v: P, fi: int)
    requires
        0 <= fi < s.len(),
        frame_find(s[fi], n) is Some,
        forall|k: int| fi < k < s.len() ==> frame_find(#[trigger] s[k], n) is None,
    ensures
        stack_set(s, n, v) == s.update(fi, frame_set(s[fi], n, v)),
    decreases s.len(),
{
    if fi == s.len() - 1 {
        assert(s.update(s.len() - 1, frame_set(s.last(), n, v)) =~= stack_set(s, n, v));
    } else {
        assert(frame_find(s.last(), n) is None);
        assert(s.drop_last()[fi] == s[fi]);
        lemma_stack_set_at(s.drop_last(), n, v, fi);
        assert(stack_set(s.drop_last(), n, v).push(s.last()) =~= s.update(
            fi,
            frame_set(s[fi], n, v),
        ));
    }
}

/// Deleting from the innermost frame that binds the name, at a known
/// frame.
proof fn lemma_stack_delete_at<P>(s: Seq<Seq<(Seq<char>, P)>>, n: Seq<char>, fi: int)
    requires
        0 <= fi < s.len(),
        frame_find(s[fi], n) is Some,
        forall|k: int| fi < k < s.len() ==> frame_find(#[trigger] s[k], n) is None,
    ensures
        stack_delete(s, n) == s.update(fi, frame_remove(s[fi], n)),
    decreases s.len(),
{
    if fi == s.len() - 1 {
        assert(s.update(s.len() - 1, frame_remove(s.last(), n)) =~= stack_delete(s, n));
    } else {
        assert(frame_find(s.last(), n) is None);
        assert(s.drop_last()[fi] == s[fi]);
        lemma_stack_delete_at(s.drop_last(), n, fi);
        assert(stack_delete(s.drop_last(), n).push(s.last()) =~= s.update(
            fi,
            frame_remove(s[fi], n),
        ));
    }
}

impl<P> Varstack<P> {
    /// Updates the newest binding of `name` in the innermost frame that
    /// has one; an unbound name is error 3.0 at the given position.
    pub fn set_val(&mut self, name: &String, value: P, pos: &Position) -> (r: Result<
        (),
        ZyxtError,
    >)
        ensures
            match r {
                Ok(()) => stack_contains(old(self)@, name@) && final(self)@ == stack_set(
                    old(self)@,
                    name@,
                    value,
                ),
                Err(e) => {
                    &&& !stack_contains(old(self)@, name@)
                    &&& final(self)@ == old(self)@
                    &&& e.code matches crate::errors::ErrorCode::UndefinedVariable { name: n }
                        && n@ == name@
                    &&& e.position matches Some(p) && p@ == pos@
                },
            },
    {
        let ghost s = self@;
        let mut fi: usize = self.frames.len();
        while fi > 0
            invariant
                0 <= fi <= self.frames@.len(),
                s == self@,
                s == old(self)@,
                s.len() == self.frames@.len(),
                forall|k: int| fi <= k < s.len() ==> frame_find(#[trigger] s[k], name@) is None,
            decreases fi,
        {
            fi -= 1;
            let ghost fv = s[fi as int];
            let mut j: usize = 0;
            let n = self.frames[fi].len();
            let mut found: bool = false;
            while j < n && !found
                invariant
                    0 <= j <= n,
                    s == self@,
                    s.len() == self.frames@.len(),
                    0 <= fi < s.len(),
                    fv == s[fi as int],
                    n == self.frames@[fi as int]@.len(),
                    fv == self.frames@[fi as int]@.map_values(|e: (String, P)| (e.0@, e.1)),
                    fv.len() == n,
                    s == old(self)@,
                    forall|k: int| fi < k < s.len() ==> frame_find(
                        #[trigger] s[k],
                        name@,
                    ) is None,
                    found ==> j < n && fv[j as int].0 == name@,
                    forall|k: int| 0 <= k < j ==> fv[k].0 != name@,
                decreases n - j, (if found { 0int } else { 1int }),
            {
                if self.frames[fi][j].0 == *name {
                    found = true;
                } else {
                    j += 1;
                }
            }
            if found {
                proof {
                    lemma_frame_find_skip(fv, name@, j as int);
                    assert(fv.skip(j as int)[0] == fv[j as int]);
                    assert(frame_find(fv, name@) is Some);
                    lemma_frame_set_at(fv, name@, value, j as int);
                    lemma_stack_set_at(s, name@, value, fi as int);
                }
                let mut fr = self.frames.remove(fi);
                fr.set(j, (name.clone(), value));
                self.frames.insert(fi, fr);
                proof {
                    lemma_stack_find_take(s, name@, fi as int + 1);
                    assert(s.take(fi as int + 1).last() == s[fi as int]);
                    assert(stack_find(s, name@) is Some);
                    assert(self@ =~~= stack_set(s, name@, value));
                    assert(self@ == stack_set(s, name@, value));
                    assert(s == old(self)@);
                }
                return Ok(());
            }
            proof {
                lemma_frame_find_skip(fv, name@, fv.len() as int);
                assert(fv.skip(fv.len() as int) =~= Seq::<(Seq<char>, P)>::empty());
                assert(frame_find(fv, name@) is None);
            }
        }
        proof {
            lemma_stack_find_take(s, name@, 0);
            assert(s.take(0) =~= Seq::<Seq<(Seq<char>, P)>>::empty());
        }
        Err(error_3_0(name.clone()).at(pos))
    }

    /// Removes the newest binding of `name` from the innermost frame that
    /// has one; an unbound name is error 3.0 at the given position.
    pub fn delete_val(&mut self, name: &String, pos: &Position) -> (r: Result<(), ZyxtError>)
        ensures
            match r {
                Ok(()) => stack_contains(old(self)@, name@) && final(self)@ == stack_delete(
                    old(self)@,
                    name@,
                ),
                Err(e) => {
                    &&& !stack_contains(old(self)@, name@)
                    &&& final(self)@ == old(self)@
                    &&& e.code matches crate::errors::ErrorCode::UndefinedVariable { name: n }
                        && n@ == name@
                    &&& e.position matches Some(p) && p@ == pos@
                },
            },
    {
        let ghost s = self@;
        let mut fi: usize = self.frames.len();
        while fi > 0
            invariant
                0 <= fi <= self.frames@.len(),
                s == self@,
                s == old(self)@,
                s.len() == self.frames@.len(),
                forall|k: int| fi <= k < s.len() ==> frame_find(#[trigger] s[k], name@) is None,
            decreases fi,
        {
            fi -= 1;
            let ghost fv = s[fi as int];
            let mut j: usize = 0;
            let n = self.frames[fi].len();
            let mut found: bool = false;
            while j < n && !found
                invariant
                    0 <= j <= n,
                    s == self@,
                    s.len() == self.frames@.len(),
                    0 <= fi < s.len(),
                    fv == s[fi as int],
                    n == self.frames@[fi as int]@.len(),
                    fv == self.frames@[fi as int]@.map_values(|e: (String, P)| (e.0@, e.1)),
                    fv.len() == n,
                    s == old(self)@,
                    forall|k: int| fi < k < s.len() ==> frame_find(
                        #[trigger] s[k],
                        name@,
                    ) is None,
                    found ==> j < n && fv[j as int].0 == name@,
                    forall|k: int| 0 <= k < j ==> fv[k].0 != name@,
                decreases n - j, (if found { 0int } else { 1int }),
            {
                if self.frames[fi][j].0 == *name {
                    found = true;
                } else {
                    j += 1;
                }
            }
            if found {
                proof {
                    lemma_frame_find_skip(fv, name@, j as int);
                    assert(fv.skip(j as int)[0] == fv[j as int]);
                    assert(frame_find(fv, name@) is Some);
                    lemma_frame_remove_at(fv, name@, j as int);
                    lemma_stack_delete_at(s, name@, fi as int);
                }
                let mut fr = self.frames.remove(fi);
                let _entry = fr.remove(j);
                self.frames.insert(fi, fr);
                proof {
                    lemma_stack_find_take(s, name@, fi as int + 1);
                    assert(s.take(fi as int + 1).last() == s[fi as int]);
                    assert(stack_find(s, name@) is Some);
                    assert(self@ =~~= stack_delete(s, name@));
                    assert(self@ == stack_delete(s, name@));
                    assert(s == old(self)@);
                }
                return Ok(());
            }
            proof {
                lemma_frame_find_skip(fv, name@, fv.len() as int);
                assert(fv.skip(fv.len() as int) =~= Seq::<(Seq<char>, P)>::empty());
                assert(frame_find(fv, name@) is None);
            }
        }
        proof {
            lemma_stack_find_take(s, name@, 0);
            assert(s.take(0) =~= Seq::<Seq<(Seq<char>, P)>>::empty());
        }
        Err(error_3_0(name.clone()).at(pos))
    }
}

/// Scope law: declaring a value under a name and looking the name up
/// finds exactly that value.
pub proof fn lemma_scope_declare_then_get<P>(s: Seq<Seq<(Seq<char>, P)>>, n: Seq<char>, v: P)
    requires
        s.len() > 0,
    ensures
        stack_find(stack_declare(s, n, v), n) == Some(v),
{
    let s2 = stack_declare(s, n, v);
    assert(s2.last() == seq![(n, v)].add(s.last()));
    assert(s2.last()[0] == (n, v));
    assert(frame_find(s2.last(), n) == Some(v));
}

/// Scope law: a frame that is pushed, written and popped leaves the stack
/// exactly as it was, so a name unbound before is unbound after.
pub proof fn lemma_scope_pop_forgets<P>(s: Seq<Seq<(Seq<char>, P)>>, n: Seq<char>, v: P)
    ensures
        stack_pop(stack_declare(stack_add(s), n, v)) == s,
        stack_find(s, n) is None ==> stack_find(
            stack_pop(stack_declare(stack_add(s), n, v)),
            n,
        ) is None,
{
    assert(stack_pop(stack_declare(stack_add(s), n, v)) =~= s);
}

} // verus!
