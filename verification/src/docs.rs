use vstd::prelude::*;
use crate::strutil::views;

verus! {

/// A documented function's signature: its qualified name, its parameter
/// names in declared order, and its result description.
#[derive(Clone, Debug)]
pub struct FunctionSignature {
    pub full_name: String,
    pub args: Vec<String>,
    pub result: String,
}

/// Documentation for one function, looked up by exact qualified name;
/// immutable once registered.
#[derive(Clone, Debug)]
pub struct FunctionDoc {
    pub signature: FunctionSignature,
    pub summary: Option<String>,
    pub description: String,
    pub examples: Option<String>,
}

/// Parameter names joined with `", "`.
pub open spec fn spec_join_args(args: Seq<Seq<char>>) -> Seq<char>
    decreases args.len(),
{
    if args.len() == 0 {
        Seq::empty()
    } else if args.len() == 1 {
        args[0]
    } else {
        args[0] + ", "@ + spec_join_args(args.drop_first())
    }
}

/// The rendered signature line: `name(arg, ...) -> result`.
pub open spec fn spec_render_signature(sig: FunctionSignature) -> Seq<char> {
    sig.full_name@ + "("@ + spec_join_args(views(sig.args@)) + ") -> "@ + sig.result@
}

fn join_args_from(args: &Vec<String>, i: usize) -> (r: String)
    requires
        i <= args@.len(),
    ensures
        r@ == spec_join_args(views(args@).skip(i as int)),
    decreases args@.len() - i,
{
    let n: usize = args.len();
    if i == n {
        proof {
            assert(views(args@).skip(i as int).len() == 0);
        }
        String::new()
    } else if i + 1 == n {
        proof {
            assert(views(args@).skip(i as int).len() == 1);
            assert(views(args@).skip(i as int)[0] == args@[i as int]@);
        }
        args[i].clone()
    } else {
        let mut s = args[i].clone();
        s.append(", ");
        let rest = join_args_from(args, i + 1);
        s.append(rest.as_str());
        proof {
            let tail = views(args@).skip(i as int);
            assert(tail[0] == args@[i as int]@);
            assert(tail.drop_first() =~= views(args@).skip(i + 1));
            assert(s@ == tail[0] + ", "@ + spec_join_args(tail.drop_first()));
        }
        s
    }
}

/// Render a signature as the detail line of a completion candidate.
pub fn render_signature(sig: &FunctionSignature) -> (r: String)
    ensures
        r@ == spec_render_signature(*sig),
{
    let mut s = sig.full_name.clone();
    s.append("(");
    let joined = join_args_from(&sig.args, 0);
    s.append(joined.as_str());
    s.append(") -> ");
    s.append(sig.result.as_str());
    proof {
        assert(views(sig.args@).skip(0) =~= views(sig.args@));
        assert(s@ =~= spec_render_signature(*sig));
    }
    s
}

} // verus!
