//! Evaluation of `cfg(..)` predicates against the build's configuration values.

use vstd::prelude::*;
use crate::env::{env_text, EnvView, Environment};
use crate::text::{text_eq, to_upper, upper};

verus! {

/// One item of a predicate.
#[derive(Debug, PartialEq, Eq)]
pub enum CfgExpr {
    /// A literal standing alone, as the `"x"` in `any("x")`.
    Literal,
    /// A name standing alone, as `unix`.
    Flag,
    /// A name applied to items, as `any(a = "b", c = "d")`.
    List(CfgList),
    /// A name with a value, as `target_os = "linux"`. `name` is `None` where
    /// the name is a path of more than one identifier, `value` is `None` where
    /// the value is not a string.
    NameValue { name: Option<String>, value: Option<String> },
}

/// A name applied to a list of items. `name` is `None` where the name is a
/// path of more than one identifier.
#[derive(Debug, PartialEq, Eq)]
pub struct CfgList {
    pub name: Option<String>,
    pub args: Vec<CfgExpr>,
}

/// What a `CfgExpr` holds, as a mathematical value.
pub enum CfgExprView {
    Literal,
    Flag,
    List(CfgListView),
    NameValue { name: Option<Seq<char>>, value: Option<Seq<char>> },
}

/// What a `CfgList` holds, as a mathematical value.
pub struct CfgListView {
    pub name: Option<Seq<char>>,
    pub args: Seq<CfgExprView>,
}

impl View for CfgExpr {
    type V = CfgExprView;

    open spec fn view(&self) -> CfgExprView
        decreases self,
    {
        match self {
            CfgExpr::Literal => CfgExprView::Literal,
            CfgExpr::Flag => CfgExprView::Flag,
            CfgExpr::List(list) => CfgExprView::List(list.view()),
            CfgExpr::NameValue { name, value } => CfgExprView::NameValue {
                name: crate::env::opt_text(*name),
                value: crate::env::opt_text(*value),
            },
        }
    }
}

impl View for CfgList {
    type V = CfgListView;

    open spec fn view(&self) -> CfgListView
        decreases self,
    {
        CfgListView {
            name: crate::env::opt_text(self.name),
            args: Seq::new(
                self.args@.len(),
                |i: int|
                    if 0 <= i < self.args@.len() {
                        self.args@[i].view()
                    } else {
                        CfgExprView::Literal
                    },
            ),
        }
    }
}

/// The view of an optional list.
pub open spec fn opt_list(list: Option<CfgList>) -> Option<CfgListView> {
    match list {
        Some(l) => Some(l@),
        None => None,
    }
}

/// The view of a list holds the views of its items, in order.
pub proof fn lemma_list_view(list: CfgList)
    ensures
        list@.name == crate::env::opt_text(list.name),
        list@.args.len() == list.args@.len(),
        forall|i: int| 0 <= i < list.args@.len() ==> list@.args[i] == (#[trigger] list.args@[i])@,
{
    reveal_with_fuel(<CfgList as View>::view, 2);
}

/// The name of the environment variable that holds the configuration value
/// `name`: the prefix `CARGO_CFG_` and the name in ASCII upper case.
pub open spec fn cfg_key(name: Seq<char>) -> Seq<char> {
    "CARGO_CFG_"@ + upper(name)
}

/// The negation of a result, where there is one.
pub open spec fn negate(r: Option<bool>) -> Option<bool> {
    match r {
        Some(b) => Some(!b),
        None => None,
    }
}

/// What a predicate item evaluates to in the environment `env`: `Some` of its
/// truth value, or `None` where it cannot be evaluated.
///
/// - `name = "value"` holds where the configuration value `name` is set to
///   exactly `value`.
/// - `any(..)`, `all(..)` and `not(..)` combine their items; `not` takes
///   exactly one.
/// - Everything else cannot be evaluated: a literal or a name standing alone, a
///   value that is not a string, a name that is a longer path, any other list.
pub open spec fn eval(e: CfgExprView, env: EnvView) -> Option<bool>
    decreases e,
{
    match e {
        CfgExprView::Literal => None,
        CfgExprView::Flag => None,
        CfgExprView::List(list) => eval_list(list, env),
        CfgExprView::NameValue { name: Some(n), value: Some(v) } => Some(
            env_text(env, cfg_key(n)) == Some(v),
        ),
        CfgExprView::NameValue { .. } => None,
    }
}

/// What `any(..)`, `all(..)` or `not(..)` evaluates to; `None` for a list of
/// any other name.
pub open spec fn eval_list(list: CfgListView, env: EnvView) -> Option<bool>
    decreases list,
{
    match list.name {
        None => None,
        Some(n) => if n == "any"@ {
            eval_any(list.args, env)
        } else if n == "not"@ {
            if list.args.len() == 1 {
                negate(eval(list.args[0], env))
            } else {
                None
            }
        } else if n == "all"@ {
            eval_all(list.args, env)
        } else {
            None
        },
    }
}

/// `any` over `args`, from left to right: `Some(true)` at the first item that
/// holds, `None` at the first that cannot be evaluated, `Some(false)` where
/// every item evaluates to false.
pub open spec fn eval_any(args: Seq<CfgExprView>, env: EnvView) -> Option<bool>
    decreases args,
{
    if args.len() == 0 {
        Some(false)
    } else {
        match eval(args[0], env) {
            None => None,
            Some(true) => Some(true),
            Some(false) => eval_any(args.drop_first(), env),
        }
    }
}

/// `all` over `args`, from left to right: `Some(false)` at the first item that
/// does not hold, `None` at the first that cannot be evaluated, `Some(true)`
/// where every item evaluates to true.
pub open spec fn eval_all(args: Seq<CfgExprView>, env: EnvView) -> Option<bool>
    decreases args,
{
    if args.len() == 0 {
        Some(true)
    } else {
        match eval(args[0], env) {
            None => None,
            Some(false) => Some(false),
            Some(true) => eval_all(args.drop_first(), env),
        }
    }
}

/// What the predicate inside `cfg(..)` evaluates to: `root` must hold exactly
/// one item, and the result is that item's.
pub open spec fn eval_root(root: CfgListView, env: EnvView) -> Option<bool> {
    if root.args.len() == 1 {
        eval(root.args[0], env)
    } else {
        None
    }
}

/// The item `not(e)`.
pub open spec fn not_of(e: CfgExprView) -> CfgExprView {
    CfgExprView::List(CfgListView { name: Some("not"@), args: seq![e] })
}

/// The item `all()`, without any item inside.
pub open spec fn all_of_nothing() -> CfgExprView {
    CfgExprView::List(CfgListView { name: Some("all"@), args: Seq::empty() })
}

/// The item `any()`, without any item inside.
pub open spec fn any_of_nothing() -> CfgExprView {
    CfgExprView::List(CfgListView { name: Some("any"@), args: Seq::empty() })
}

/// In every environment `all()` holds and `any()` does not.
pub proof fn lemma_empty_all_and_any(env: EnvView)
    ensures
        eval(all_of_nothing(), env) == Some(true),
        eval(any_of_nothing(), env) == Some(false),
{
    reveal_strlit("any");
    reveal_strlit("not");
    reveal_strlit("all");
    assert("all"@ != "any"@) by {
        assert("all"@[1] == 'l');
        assert("any"@[1] == 'n');
    }
    assert("all"@ != "not"@) by {
        assert("all"@[0] == 'a');
        assert("not"@[0] == 'n');
    }
    let all = CfgListView { name: Some("all"@), args: Seq::<CfgExprView>::empty() };
    let any = CfgListView { name: Some("any"@), args: Seq::<CfgExprView>::empty() };
    assert(eval_all(all.args, env) == Some(true));
    assert(eval_any(any.args, env) == Some(false));
    assert(eval_list(all, env) == Some(true));
    assert(eval_list(any, env) == Some(false));
}

/// Negating twice changes nothing: `not(not(e))` evaluates to what `e`
/// evaluates to, also where `e` cannot be evaluated.
pub proof fn lemma_double_negation(e: CfgExprView, env: EnvView)
    ensures
        eval(not_of(not_of(e)), env) == eval(e, env),
{
    reveal_strlit("any");
    reveal_strlit("not");
    assert("not"@ != "any"@) by {
        assert("not"@[0] == 'n');
        assert("any"@[0] == 'a');
    }
    let inner = not_of(e);
    assert(eval(inner, env) == negate(eval(e, env))) by {
        assert(inner->List_0.args[0] == e);
    }
    assert(eval(not_of(inner), env) == negate(eval(inner, env))) by {
        assert(not_of(inner)->List_0.args[0] == inner);
    }
}

/// `any` holds exactly where one of its items holds and every item before
/// that one evaluates to false.
pub proof fn lemma_any_holds(args: Seq<CfgExprView>, env: EnvView)
    ensures
        eval_any(args, env) == Some(true) <==> exists|i: int|
            0 <= i < args.len() && #[trigger] eval(args[i], env) == Some(true) && forall|j: int|
                0 <= j < i ==> #[trigger] eval(args[j], env) == Some(false),
    decreases args.len(),
{
    if args.len() > 0 {
        let rest = args.drop_first();
        lemma_any_holds(rest, env);
        if eval_any(args, env) == Some(true) {
            if eval(args[0], env) == Some(true) {
                assert(eval(args[0], env) == Some(true) && forall|j: int|
                    0 <= j < 0 ==> #[trigger] eval(args[j], env) == Some(false));
            } else {
                let k = choose|i: int|
                    0 <= i < rest.len() && #[trigger] eval(rest[i], env) == Some(true) && forall|j: int|
                        0 <= j < i ==> #[trigger] eval(rest[j], env) == Some(false);
                assert(eval(args[k + 1], env) == Some(true));
                assert forall|j: int| 0 <= j < k + 1 implies #[trigger] eval(args[j], env) == Some(
                    false,
                ) by {
                    if j > 0 {
                        assert(args[j] == rest[j - 1]);
                    }
                }
            }
        }
        if exists|i: int|
            0 <= i < args.len() && #[trigger] eval(args[i], env) == Some(true) && forall|j: int|
                0 <= j < i ==> #[trigger] eval(args[j], env) == Some(false) {
            let k = choose|i: int|
                0 <= i < args.len() && #[trigger] eval(args[i], env) == Some(true) && forall|j: int|
                    0 <= j < i ==> #[trigger] eval(args[j], env) == Some(false);
            if k > 0 {
                assert(eval(args[0], env) == Some(false));
                assert(eval(rest[k - 1], env) == Some(true));
                assert forall|j: int| 0 <= j < k - 1 implies #[trigger] eval(rest[j], env) == Some(
                    false,
                ) by {
                    assert(rest[j] == args[j + 1]);
                }
            }
        }
    }
}

/// `any` fails exactly where every one of its items evaluates to false.
pub proof fn lemma_any_fails(args: Seq<CfgExprView>, env: EnvView)
    ensures
        eval_any(args, env) == Some(false) <==> forall|i: int|
            0 <= i < args.len() ==> #[trigger] eval(args[i], env) == Some(false),
    decreases args.len(),
{
    if args.len() > 0 {
        let rest = args.drop_first();
        lemma_any_fails(rest, env);
        if eval_any(args, env) == Some(false) {
            assert forall|i: int| 0 <= i < args.len() implies #[trigger] eval(args[i], env) == Some(
                false,
            ) by {
                if i > 0 {
                    assert(args[i] == rest[i - 1]);
                }
            }
        }
        if forall|i: int| 0 <= i < args.len() ==> #[trigger] eval(args[i], env) == Some(false) {
            assert(eval(args[0], env) == Some(false));
            assert forall|i: int| 0 <= i < rest.len() implies #[trigger] eval(rest[i], env) == Some(
                false,
            ) by {
                assert(rest[i] == args[i + 1]);
            }
        }
    }
}

/// `all` holds exactly where every one of its items holds.
pub proof fn lemma_all_holds(args: Seq<CfgExprView>, env: EnvView)
    ensures
        eval_all(args, env) == Some(true) <==> forall|i: int|
            0 <= i < args.len() ==> #[trigger] eval(args[i], env) == Some(true),
    decreases args.len(),
{
    if args.len() > 0 {
        let rest = args.drop_first();
        lemma_all_holds(rest, env);
        if eval_all(args, env) == Some(true) {
            assert forall|i: int| 0 <= i < args.len() implies #[trigger] eval(args[i], env) == Some(
                true,
            ) by {
                if i > 0 {
                    assert(args[i] == rest[i - 1]);
                }
            }
        }
        if forall|i: int| 0 <= i < args.len() ==> #[trigger] eval(args[i], env) == Some(true) {
            assert(eval(args[0], env) == Some(true));
            assert forall|i: int| 0 <= i < rest.len() implies #[trigger] eval(rest[i], env) == Some(
                true,
            ) by {
                assert(rest[i] == args[i + 1]);
            }
        }
    }
}

/// `all` fails exactly where one of its items evaluates to false and every
/// item before that one holds.
pub proof fn lemma_all_fails(args: Seq<CfgExprView>, env: EnvView)
    ensures
        eval_all(args, env) == Some(false) <==> exists|i: int|
            0 <= i < args.len() && #[trigger] eval(args[i], env) == Some(false) && forall|j: int|
                0 <= j < i ==> #[trigger] eval(args[j], env) == Some(true),
    decreases args.len(),
{
    if args.len() > 0 {
        let rest = args.drop_first();
        lemma_all_fails(rest, env);
        if eval_all(args, env) == Some(false) {
            if eval(args[0], env) == Some(false) {
                assert(eval(args[0], env) == Some(false) && forall|j: int|
                    0 <= j < 0 ==> #[trigger] eval(args[j], env) == Some(true));
            } else {
                let k = choose|i: int|
                    0 <= i < rest.len() && #[trigger] eval(rest[i], env) == Some(false) && forall|j: int|
                        0 <= j < i ==> #[trigger] eval(rest[j], env) == Some(true);
                assert(eval(args[k + 1], env) == Some(false));
                assert forall|j: int| 0 <= j < k + 1 implies #[trigger] eval(args[j], env) == Some(
                    true,
                ) by {
                    if j > 0 {
                        assert(args[j] == rest[j - 1]);
                    }
                }
            }
        }
        if exists|i: int|
            0 <= i < args.len() && #[trigger] eval(args[i], env) == Some(false) && forall|j: int|
                0 <= j < i ==> #[trigger] eval(args[j], env) == Some(true) {
            let k = choose|i: int|
                0 <= i < args.len() && #[trigger] eval(args[i], env) == Some(false) && forall|j: int|
                    0 <= j < i ==> #[trigger] eval(args[j], env) == Some(true);
            if k > 0 {
                assert(eval(args[0], env) == Some(true));
                assert(eval(rest[k - 1], env) == Some(false));
                assert forall|j: int| 0 <= j < k - 1 implies #[trigger] eval(rest[j], env) == Some(
                    true,
                ) by {
                    assert(rest[j] == args[j + 1]);
                }
            }
        }
    }
}

/// The name of the environment variable that holds the configuration value
/// `name`.
pub fn config_key(name: &str) -> (r: String)
    ensures
        r@ == cfg_key(name@),
{
    let mut key = String::from_str("CARGO_CFG_");
    let upper_name = to_upper(name);
    key.append(upper_name.as_str());
    key
}

/// Evaluates one predicate item in the environment `env`.
pub fn check_cfg(e: &CfgExpr, env: &Environment) -> (r: Option<bool>)
    ensures
        r == eval(e@, env@),
    decreases e,
{
    match e {
        CfgExpr::Literal => None,
        CfgExpr::Flag => None,
        CfgExpr::NameValue { name: Some(n), value: Some(v) } => {
            let key = config_key(n.as_str());
            Some(env.holds(key.as_str(), v.as_str()))
        },
        CfgExpr::NameValue { .. } => None,
        CfgExpr::List(list) => {
            let name = match &list.name {
                Some(n) => n,
                None => { return None; },
            };
            let n = list.args.len();
            proof {
                lemma_list_view(*list);
                assert(list@.args.skip(0) =~= list@.args);
            }
            if text_eq(name.as_str(), "any") {
                let mut i: usize = 0;
                while i < n
                    invariant
                        i <= n,
                        n == list.args@.len(),
                        *e == CfgExpr::List(*list),
                        eval(e@, env@) == eval_any(list@.args, env@),
                        eval_any(list@.args, env@) == eval_any(list@.args.skip(i as int), env@),
                    decreases n - i,
                {
                    proof {
                        lemma_list_view(*list);
                        assert(list@.args.skip(i as int).drop_first() =~= list@.args.skip(i + 1));
                        assert(decreases_to!(e => list.args@[i as int]));
                    }
                    match check_cfg(&list.args[i], env) {
                        None => { return None; },
                        Some(true) => { return Some(true); },
                        Some(false) => {},
                    }
                    i += 1;
                }
                Some(false)
            } else if text_eq(name.as_str(), "not") {
                if n != 1 {
                    return None;
                }
                match check_cfg(&list.args[0], env) {
                    Some(b) => Some(!b),
                    None => None,
                }
            } else if text_eq(name.as_str(), "all") {
                let mut i: usize = 0;
                while i < n
                    invariant
                        i <= n,
                        n == list.args@.len(),
                        *e == CfgExpr::List(*list),
                        eval(e@, env@) == eval_all(list@.args, env@),
                        eval_all(list@.args, env@) == eval_all(list@.args.skip(i as int), env@),
                    decreases n - i,
                {
                    proof {
                        lemma_list_view(*list);
                        assert(list@.args.skip(i as int).drop_first() =~= list@.args.skip(i + 1));
                        assert(decreases_to!(e => list.args@[i as int]));
                    }
                    match check_cfg(&list.args[i], env) {
                        None => { return None; },
                        Some(false) => { return Some(false); },
                        Some(true) => {},
                    }
                    i += 1;
                }
                Some(true)
            } else {
                None
            }
        },
    }
}

/// Evaluates the predicate inside `cfg(..)`: `root` is the whole `cfg(..)`, and
/// must hold exactly one item.
pub fn check_cfg_root(root: &CfgList, env: &Environment) -> (r: Option<bool>)
    ensures
        r == eval_root(root@, env@),
{
    proof {
        lemma_list_view(*root);
    }
    if root.args.len() != 1 {
        return None;
    }
    check_cfg(&root.args[0], env)
}

} // verus!
