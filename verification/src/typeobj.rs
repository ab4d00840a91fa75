//! Type descriptors: the static types of the language.
use vstd::prelude::*;

verus! {

/// A type descriptor. `Instance` is a concrete type such as `i32`, `str`
/// or `proc<...>`; `Definition` stands for the type of a class itself and
/// is a stub here, since class bodies are outside this core.
#[derive(Debug)]
pub enum Type {
    Instance { name: String, type_args: Vec<Type> },
    Definition { name: String },
}

/// Mathematical image of a `Type`.
pub enum TypeV {
    InstanceV { name: Seq<char>, type_args: Seq<TypeV> },
    DefinitionV { name: Seq<char> },
}

/// The image of a type descriptor.
pub open spec fn type_view(t: Type) -> TypeV
    decreases t,
{
    match t {
        Type::Instance { name, type_args } => TypeV::InstanceV {
            name: name@,
            type_args: types_view(type_args@),
        },
        Type::Definition { name } => TypeV::DefinitionV { name: name@ },
    }
}

/// The image of a sequence of type descriptors.
pub open spec fn types_view(s: Seq<Type>) -> Seq<TypeV>
    decreases s,
{
    if s.len() == 0 {
        Seq::<TypeV>::empty()
    } else {
        types_view(s.drop_last()).push(type_view(s.last()))
    }
}

pub proof fn lemma_types_view(s: Seq<Type>)
    ensures
        types_view(s).len() == s.len(),
        forall|j: int| 0 <= j < s.len() ==> types_view(s)[j] == type_view(s[j]),
    decreases s.len(),
{
    if s.len() > 0 {
        lemma_types_view(s.drop_last());
    }
}

impl View for Type {
    type V = TypeV;

    open spec fn view(&self) -> TypeV {
        type_view(*self)
    }
}

/// The image of the singleton null type.
pub open spec fn null_type() -> TypeV {
    TypeV::InstanceV { name: "#null"@, type_args: Seq::<TypeV>::empty() }
}

/// The image of a bare primitive type of the given name.
pub open spec fn prim_type(name: Seq<char>) -> TypeV {
    TypeV::InstanceV { name: name, type_args: Seq::<TypeV>::empty() }
}

impl Type {
    /// The singleton null type, `#null`.
    pub fn null() -> (r: Type)
        ensures
            r@ == null_type(),
    {
        Type::Instance { name: "#null".to_owned(), type_args: Vec::new() }
    }

    /// A bare instance type of the given name, with no type arguments.
    pub fn from_str(name: &str) -> (r: Type)
        ensures
            r@ == prim_type(name@),
    {
        Type::Instance { name: name.to_owned(), type_args: Vec::new() }
    }

    pub fn duplicate(&self) -> (r: Type)
        ensures
            r@ == self@,
        decreases *self,
    {
        match self {
            Type::Instance { name, type_args } => {
                let mut args: Vec<Type> = Vec::new();
                let mut i: usize = 0;
                while i < type_args.len()
                    invariant
                        0 <= i <= type_args@.len(),
                        args@.len() == i,
                        *self matches Type::Instance { type_args: ta, .. } && ta == type_args,
                        forall|j: int| 0 <= j < i ==> args@[j]@ == type_args@[j]@,
                    decreases type_args@.len() - i,
                {
                    proof {
                        assert(decreases_to!(*self => type_args@[i as int]));
                    }
                    args.push(type_args[i].duplicate());
                    i += 1;
                }
                proof {
                    lemma_types_view(args@);
                    lemma_types_view(type_args@);
                    assert(types_view(args@) =~= types_view(type_args@));
                }
                Type::Instance { name: name.clone(), type_args: args }
            },
            Type::Definition { name } => Type::Definition { name: name.clone() },
        }
    }

    /// Structural equality of type descriptors.
    pub fn eq_type(&self, other: &Type) -> (r: bool)
        ensures
            r == (self@ == other@),
        decreases *self, 1int,
    {
        match (self, other) {
            (
                Type::Instance { name: n1, type_args: a1 },
                Type::Instance { name: n2, type_args: a2 },
            ) => {
                if *n1 == *n2 {
                    eq_types(self, a1, a2)
                } else {
                    false
                }
            },
            (Type::Definition { name: n1 }, Type::Definition { name: n2 }) => *n1 == *n2,
            _ => false,
        }
    }
}

/// The display form of a type: its name, with `<a,b,...>` appended when it
/// has type arguments.
pub open spec fn type_render(t: TypeV) -> Seq<char>
    decreases t, 0int,
{
    match t {
        TypeV::InstanceV { name, type_args } => {
            if type_args.len() == 0 {
                name
            } else {
                name.add("<"@).add(render_types_from(type_args, 0)).add(">"@)
            }
        },
        TypeV::DefinitionV { name } => name,
    }
}

/// The display forms of `s[i..]`, joined by commas.
pub open spec fn render_types_from(s: Seq<TypeV>, i: int) -> Seq<char>
    decreases s, s.len() - i,
{
    if i < 0 || i >= s.len() {
        Seq::<char>::empty()
    } else if i == s.len() - 1 {
        type_render(s[i])
    } else {
        type_render(s[i]).add(","@).add(render_types_from(s, i + 1))
    }
}

impl Type {
    /// The display form of this type.
    pub fn rendered(&self) -> (r: String)
        ensures
            r@ == type_render(self@),
        decreases *self, 1int, 0int,
    {
        match self {
            Type::Instance { name, type_args } => {
                if type_args.len() == 0 {
                    proof {
                        lemma_types_view(type_args@);
                    }
                    name.clone()
                } else {
                    let mut s = name.clone();
                    s.append("<");
                    let inner = render_types_list(self, type_args, 0);
                    s.append(inner.as_str());
                    s.append(">");
                    proof {
                        lemma_types_view(type_args@);
                        assert(s@ =~= type_render(self@));
                    }
                    s
                }
            },
            Type::Definition { name } => name.clone(),
        }
    }
}

/// The display forms of `args[i..]`, joined by commas; `parent` carries
/// the termination measure.
fn render_types_list(parent: &Type, args: &Vec<Type>, i: usize) -> (r: String)
    requires
        parent matches Type::Instance { type_args, .. } && type_args == args,
        i < args@.len(),
    ensures
        r@ == render_types_from(types_view(args@), i as int),
    decreases *parent, 0int, args@.len() - i,
{
    proof {
        lemma_types_view(args@);
        assert(decreases_to!(*parent => args@[i as int]));
    }
    let first = args[i].rendered();
    if i == args.len() - 1 {
        first
    } else {
        let mut s = first;
        s.append(",");
        let rest = render_types_list(parent, args, i + 1);
        s.append(rest.as_str());
        proof {
            lemma_types_view(args@);
            assert(s@ =~= render_types_from(types_view(args@), i as int));
        }
        s
    }
}

/// Structural equality of two type-argument lists; `parent` only carries
/// the termination measure.
fn eq_types(parent: &Type, a: &Vec<Type>, b: &Vec<Type>) -> (r: bool)
    requires
        parent matches Type::Instance { type_args, .. } && type_args == a,
    ensures
        r == (types_view(a@) == types_view(b@)),
    decreases *parent, 0int,
{
    proof {
        lemma_types_view(a@);
        lemma_types_view(b@);
    }
    if a.len() != b.len() {
        proof {
            assert(types_view(a@).len() != types_view(b@).len());
        }
        return false;
    }
    let n = a.len();
    let mut i: usize = 0;
    while i < n
        invariant
            0 <= i <= n,
            n == a@.len() == b@.len(),
            parent matches Type::Instance { type_args, .. } && type_args == a,
            forall|j: int| 0 <= j < i ==> type_view(a@[j]) == type_view(b@[j]),
        decreases n - i,
    {
        proof {
            assert(decreases_to!(*parent => a@[i as int]));
        }
        if !a[i].eq_type(&b[i]) {
            proof {
                lemma_types_view(a@);
                lemma_types_view(b@);
                assert(types_view(a@)[i as int] == type_view(a@[i as int]));
                assert(types_view(b@)[i as int] == type_view(b@[i as int]));
            }
            return false;
        }
        i += 1;
    }
    proof {
        lemma_types_view(a@);
        lemma_types_view(b@);
        assert(types_view(a@) =~= types_view(b@));
    }
    true
}

} // verus!
