//! Command-line callbacks of the serial terminal: looking up a command's
//! arguments, and the greeting command.

use vstd::prelude::*;
use menu::{Item, ItemType, Parameter};

verus! {

/// A command of the terminal's menu.
#[verifier::external_type_specification]
#[verifier::external_body]
#[verifier::reject_recursive_types(T)]
pub struct ExMenuItem<'a, T: 'a>(menu::Item<'a, T>);

/// A menu of the terminal.
#[verifier::external_type_specification]
#[verifier::external_body]
#[verifier::reject_recursive_types(T)]
pub struct ExMenu<'a, T: 'a>(menu::Menu<'a, T>);

/// The error that `menu::argument_finder` reports.
#[verifier::external_type_specification]
#[verifier::external_body]
pub struct ExMenuError(menu::Error);

/// The kinds of parameter a terminal command can declare.
#[derive(PartialEq, Eq, Structural, Debug, Clone, Copy)]
pub enum ParamKind {
    /// A positional argument that must be given.
    Mandatory,
    /// A positional argument that may follow the mandatory ones.
    Optional,
    /// A flag, `--name`.
    Named,
    /// A named value, `--name=value`.
    NamedValue,
}

/// One parameter that a command declares.
#[derive(Debug, Clone, Copy)]
pub struct ParamSpec {
    pub kind: ParamKind,
    pub name: &'static str,
}

/// An argument that starts with `--`.
pub open spec fn is_flag(a: Seq<char>) -> bool {
    a.len() >= 2 && a[0] == '-' && a[1] == '-'
}

/// The `k`-th (counting from one) argument that does not start with `--`.
pub open spec fn nth_positional(args: Seq<&str>, k: int) -> Option<Seq<char>>
    decreases args.len(),
{
    if args.len() == 0 {
        None
    } else if !is_flag(args[0]@) {
        if k == 1 {
            Some(args[0]@)
        } else {
            nth_positional(args.drop_first(), k - 1)
        }
    } else {
        nth_positional(args.drop_first(), k)
    }
}

/// Index of the last parameter called `name`, or -1 when there is none.
pub open spec fn last_param(params: Seq<ParamSpec>, name: Seq<char>) -> int
    decreases params.len(),
{
    if params.len() == 0 {
        -1
    } else if params.last().name@ == name {
        params.len() - 1
    } else {
        last_param(params.drop_last(), name)
    }
}

/// Number of parameters of kind `kind`.
pub open spec fn kind_count(params: Seq<ParamSpec>, kind: ParamKind) -> int
    decreases params.len(),
{
    if params.len() == 0 {
        0
    } else {
        kind_count(params.drop_last(), kind) + if params.last().kind == kind {
            1int
        } else {
            0int
        }
    }
}

/// `a` is `--name=` followed by a value.
pub open spec fn is_named_value(a: Seq<char>, name: Seq<char>) -> bool {
    &&& is_flag(a)
    &&& a.len() >= name.len() + 3
    &&& a.subrange(2, name.len() + 2int) == name
    &&& a[name.len() + 2int] == '='
}

/// The value after `--name=` in the first argument of that form.
pub open spec fn first_named_value(args: Seq<&str>, name: Seq<char>) -> Option<Seq<char>>
    decreases args.len(),
{
    if args.len() == 0 {
        None
    } else if is_named_value(args[0]@, name) {
        Some(args[0]@.skip(name.len() + 3int))
    } else {
        first_named_value(args.drop_first(), name)
    }
}

/// Some argument is the flag `--name`.
pub open spec fn has_flag(args: Seq<&str>, name: Seq<char>) -> bool {
    exists|i: int| 0 <= i < args.len() && is_flag(args[i]@) && #[trigger] args[i]@.skip(2) == name
}

/// The argument that a command declaring `params` receives for the
/// parameter `name`, as the terminal's lookup gives it: an error when no
/// parameter has that name (the last one of that name counts), else the
/// positional argument in the parameter's place (optional ones after all
/// mandatory ones), `""` when the flag `--name` is given, or the text after
/// the first `--name=`; `None` when the arguments hold no such value.
pub open spec fn argument_lookup(params: Seq<ParamSpec>, args: Seq<&str>, name: Seq<char>) -> Result<
    Option<Seq<char>>,
    (),
> {
    let i = last_param(params, name);
    if i < 0 {
        Err(())
    } else {
        match params[i].kind {
            ParamKind::Mandatory => Ok(
                nth_positional(args, kind_count(params.take(i + 1), ParamKind::Mandatory)),
            ),
            ParamKind::Optional => Ok(
                nth_positional(
                    args,
                    kind_count(params, ParamKind::Mandatory) + kind_count(
                        params.take(i + 1),
                        ParamKind::Optional,
                    ),
                ),
            ),
            ParamKind::Named => if has_flag(args, name) {
                Ok(Some(Seq::<char>::empty()))
            } else {
                Ok(None)
            },
            ParamKind::NamedValue => Ok(first_named_value(args, name)),
        }
    }
}

/// The text of an optional owned string.
pub open spec fn text_of(o: Option<String>) -> Option<Seq<char>> {
    match o {
        Some(s) => Some(s@),
        None => None,
    }
}

/// The action of the command item that an argument lookup is made on:
/// the lookup never runs it.
fn no_action(_menu: &menu::Menu<()>, _item: &menu::Item<()>, _args: &[&str], _context: &mut ()) {
}

/// Looks up the argument given for the parameter `name` of a command that
/// declares `params`, through `menu::argument_finder` on a command item
/// holding those parameters; the value found is copied out. As the source
/// of that function shows, it takes the last parameter called `name`,
/// reports an error when there is none, and otherwise gives the positional
/// argument in that parameter's place, `""` for a given `--name` flag, the
/// text after the first `--name=`, or `None`.
#[verifier::external_body]
pub fn find_argument(params: &[ParamSpec], args: &[&str], name: &str) -> (r: Result<Option<String>, menu::Error>)
    ensures
        r is Err <==> argument_lookup(params@, args@, name@) is Err,
        r matches Ok(v) ==> (argument_lookup(params@, args@, name@) matches Ok(w) && w == text_of(v)),
{
    let list: Vec<Parameter> = params.iter().map(|p| match p.kind {
        ParamKind::Mandatory => Parameter::Mandatory { parameter_name: p.name, help: None },
        ParamKind::Optional => Parameter::Optional { parameter_name: p.name, help: None },
        ParamKind::Named => Parameter::Named { parameter_name: p.name, help: None },
        ParamKind::NamedValue => Parameter::NamedValue { parameter_name: p.name, argument_name: "", help: None },
    }).collect();
    let item: Item<()> = Item { command: "", help: None, item_type: ItemType::Callback { function: no_action, parameters: &list } };
    menu::argument_finder(&item, args, name).map(|found| found.map(|v| v.to_string()))
}

/// The line the greeting command prints for `name`.
pub fn greeting(name: &str) -> (s: String)
    ensures
        s@ == "Hello, "@ + name@ + "!"@,
{
    let mut s = String::from_str("Hello, ");
    s.append(name);
    s.append("!");
    s
}

/// Why a command got no value for one of its parameters.
#[derive(PartialEq, Eq, Structural, Debug, Clone, Copy)]
pub enum ArgumentError {
    /// The command declares no parameter of that name.
    NotDeclared,
    /// The command line holds no value for it.
    NotGiven,
}

/// What the greeting command answers to the outcome of looking up its
/// `name` argument: the greeting when a name was found, otherwise the reason
/// why there is none (the command cannot run without a name).
pub fn greeting_reply(found: Result<Option<String>, menu::Error>) -> (r: Result<String, ArgumentError>)
    ensures
        found matches Ok(Some(n)) ==> r matches Ok(s) && s@ == "Hello, "@ + n@ + "!"@,
        found matches Ok(None) ==> r == Err::<String, ArgumentError>(ArgumentError::NotGiven),
        found is Err ==> r == Err::<String, ArgumentError>(ArgumentError::NotDeclared),
{
    match found {
        Ok(Some(n)) => Ok(greeting(n.as_str())),
        Ok(None) => Err(ArgumentError::NotGiven),
        Err(_) => Err(ArgumentError::NotDeclared),
    }
}

/// The parameters of the greeting command: one mandatory `name`.
pub open spec fn hello_params() -> Seq<ParamSpec> {
    seq![ParamSpec { kind: ParamKind::Mandatory, name: "name" }]
}

/// A command whose only parameter is mandatory gets the first positional
/// argument for it.
pub proof fn single_mandatory_gets_first_positional(p: ParamSpec, args: Seq<&str>)
    requires
        p.kind == ParamKind::Mandatory,
    ensures
        argument_lookup(seq![p], args, p.name@) == Ok::<Option<Seq<char>>, ()>(
            nth_positional(args, 1),
        ),
{
    let ps = seq![p];
    assert(ps.take(1) =~= ps);
    assert(ps.drop_last() =~= Seq::<ParamSpec>::empty());
    assert(last_param(ps, p.name@) == 0);
    assert(kind_count(Seq::<ParamSpec>::empty(), ParamKind::Mandatory) == 0);
    assert(ps.last() == p);
    assert(kind_count(ps, ParamKind::Mandatory) == 1);
}

/// When every argument starts with `--`, there is no positional argument.
pub proof fn flags_only_have_no_positional(args: Seq<&str>, k: int)
    requires
        forall|i: int| 0 <= i < args.len() ==> is_flag(#[trigger] args[i]@),
    ensures
        nth_positional(args, k) is None,
    decreases args.len(),
{
    if args.len() > 0 {
        let rest = args.drop_first();
        assert forall|i: int| 0 <= i < rest.len() implies is_flag(#[trigger] rest[i]@) by {
            assert(rest[i] == args[i + 1]);
        }
        assert(is_flag(args[0]@));
        flags_only_have_no_positional(rest, k);
    }
}

/// The greeting command: greets the first argument that does not start
/// with `--`. When every argument does, the name is missing and the command
/// fails with `NotGiven`.
pub fn hello_name(args: &[&str]) -> (r: Result<String, ArgumentError>)
    ensures
        nth_positional(args@, 1) matches Some(v) ==> r matches Ok(s) && s@ == "Hello, "@ + v
            + "!"@,
        nth_positional(args@, 1) is None ==> r == Err::<String, ArgumentError>(
            ArgumentError::NotGiven,
        ),
{
    let params = [ParamSpec { kind: ParamKind::Mandatory, name: "name" }];
    assert(params@ =~= hello_params());
    proof {
        single_mandatory_gets_first_positional(params@[0], args@);
    }
    greeting_reply(find_argument(&params, args, "name"))
}

} // verus!
