//! Calls that the programs make: of other programs, and of methods on a bus.
use vstd::prelude::*;

use crate::text::texts;

verus! {

/// A program to run: its name or path, its arguments, and the environment
/// variables set for it, in the order in which they are set.
#[derive(Debug, Clone, PartialEq, Eq)]
pub struct Invocation {
    pub program: String,
    pub args: Vec<String>,
    pub env: Vec<(String, String)>,
}

/// The view of an [`Invocation`].
#[verifier::ext_equal]
pub struct InvocationView {
    pub program: Seq<char>,
    pub args: Seq<Seq<char>>,
    pub env: Seq<(Seq<char>, Seq<char>)>,
}

/// The views of name and value pairs.
pub open spec fn pairs_view(v: Seq<(String, String)>) -> Seq<(Seq<char>, Seq<char>)> {
    Seq::new(v.len(), |i: int| (v[i].0@, v[i].1@))
}

impl View for Invocation {
    type V = InvocationView;

    open spec fn view(&self) -> InvocationView {
        InvocationView {
            program: self.program@,
            args: texts(self.args@),
            env: pairs_view(self.env@),
        }
    }
}

/// A program run with arguments and nothing set in its environment.
pub open spec fn plain_call(program: Seq<char>, args: Seq<Seq<char>>) -> InvocationView {
    InvocationView { program, args, env: seq![] }
}

impl Invocation {
    pub fn new(program: &str) -> (r: Self)
        ensures
            r@ == plain_call(program@, seq![]),
    {
        let r = Invocation { program: program.to_owned(), args: Vec::new(), env: Vec::new() };
        assert(r@ =~= plain_call(program@, seq![]));
        r
    }

    /// The same call with one more argument.
    pub fn arg(self, a: &str) -> (r: Self)
        ensures
            r@ == (InvocationView { args: self@.args.push(a@), ..self@ }),
    {
        let ghost before = self@;
        let mut s = self;
        s.args.push(a.to_owned());
        assert(s@ =~= (InvocationView { args: before.args.push(a@), ..before }));
        s
    }

    /// The same call with one more environment variable set.
    pub fn env(self, name: &str, value: &str) -> (r: Self)
        ensures
            r@ == (InvocationView { env: self@.env.push((name@, value@)), ..self@ }),
    {
        let ghost before = self@;
        let mut s = self;
        s.env.push((name.to_owned(), value.to_owned()));
        assert(s@ =~= (InvocationView { env: before.env.push((name@, value@)), ..before }));
        s
    }
}

/// A method call on a bus, all of whose arguments are strings.
#[derive(Debug, Clone, PartialEq, Eq)]
pub struct BusCall {
    pub destination: String,
    pub path: String,
    pub interface: String,
    pub member: String,
    pub args: Vec<String>,
}

/// The view of a [`BusCall`].
#[verifier::ext_equal]
pub struct BusCallView {
    pub destination: Seq<char>,
    pub path: Seq<char>,
    pub interface: Seq<char>,
    pub member: Seq<char>,
    pub args: Seq<Seq<char>>,
}

impl View for BusCall {
    type V = BusCallView;

    open spec fn view(&self) -> BusCallView {
        BusCallView {
            destination: self.destination@,
            path: self.path@,
            interface: self.interface@,
            member: self.member@,
            args: texts(self.args@),
        }
    }
}

impl BusCall {
    pub fn new(destination: &str, path: &str, interface: &str, member: &str) -> (r: Self)
        ensures
            r@ == (BusCallView {
                destination: destination@,
                path: path@,
                interface: interface@,
                member: member@,
                args: seq![],
            }),
    {
        let r = BusCall {
            destination: destination.to_owned(),
            path: path.to_owned(),
            interface: interface.to_owned(),
            member: member.to_owned(),
            args: Vec::new(),
        };
        assert(r@.args =~= seq![]);
        r
    }

    /// The same call with one more argument.
    pub fn arg(self, a: &str) -> (r: Self)
        ensures
            r@ == (BusCallView { args: self@.args.push(a@), ..self@ }),
    {
        let ghost before = self@;
        let mut s = self;
        s.args.push(a.to_owned());
        assert(s@ =~= (BusCallView { args: before.args.push(a@), ..before }));
        s
    }
}

// ---------------------------------------------------------------------------
// Laws
// ---------------------------------------------------------------------------

/// A plain call is of its program, with its arguments and nothing set.
pub proof fn a_plain_call_sets_nothing(program: Seq<char>, args: Seq<Seq<char>>)
    ensures
        plain_call(program, args).program == program,
        plain_call(program, args).args == args,
        plain_call(program, args).env.len() == 0,
{
}

/// Each pair has its name and its value, in order.
pub proof fn each_pair_has_its_texts(v: Seq<(String, String)>)
    ensures
        pairs_view(v).len() == v.len(),
        forall|i: int| 0 <= i < v.len() ==> #[trigger] pairs_view(v)[i] == (v[i].0@, v[i].1@),
{
}

} // verus!
