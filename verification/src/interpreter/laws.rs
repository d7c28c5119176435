//! What holds of every evaluation.

use crate::errors::ErrorView;
use crate::grammar::{ElementView, ExpressionView, FunctionView, ListView};
use crate::interpreter::environment::{find_among, lookup, BindingView, EnvironmentView};
use crate::interpreter::fractions::FactView;
use crate::interpreter::meaning::{
    arithmetic, binds, combine, expression_value, fits, fold_from, function_value, list_value_from,
    named_value, pipe_results_from, pipe_value, pipe_values_from, piped_value, program_value,
    root_environment, root_scope_from, Evaluated, HaltView,
};
use crate::tokens::{type_of, Operator, Type, ValueView};
use vstd::prelude::*;

verus! {

/// An evaluation that ends in an interpreter error.
pub open spec fn is_interpreter_error(outcome: Evaluated) -> bool {
    outcome matches Err(HaltView::Failed(ErrorView::Interpreter(_, _)))
}

/// A function whose signature declares another number of parameters than its
/// definition names cannot be entered: evaluating it is an interpreter error,
/// wherever and with whatever it is called.
pub proof fn lemma_arity_mismatch_fails(
    facts: Seq<FactView>,
    env: EnvironmentView,
    function: FunctionView,
    depth: nat,
)
    requires
        function.signature.parameters.len() != function.definition.parameters.len(),
    ensures
        is_interpreter_error(function_value(facts, env, function, depth)),
{
}

/// Every element is a value of the type `list_type`.
pub open spec fn homogeneous(elements: Seq<ElementView>, list_type: Type) -> bool {
    forall|k: int|
        0 <= k < elements.len() ==> (#[trigger] elements[k] matches ElementView::Value(v)
            && type_of(v) == list_type)
}

proof fn lemma_list_from(
    facts: Seq<FactView>,
    env: EnvironmentView,
    list: ListView,
    i: nat,
    depth: nat,
    found: Seq<ElementView>,
)
    requires
        i <= list.elements.len(),
        homogeneous(found, list.list_type),
        list_value_from(facts, env, list, i, depth, found) is Ok,
    ensures
        list_value_from(facts, env, list, i, depth, found) matches Ok(ValueView::List(out))
            && out.list_type == list.list_type && out.line == list.line && out.elements.len()
            == found.len() + list.elements.len() - i && homogeneous(out.elements, list.list_type),
    decreases list.elements.len() - i,
{
    if i < list.elements.len() {
        let resolved: Evaluated = match list.elements[i as int] {
            ElementView::Value(value) => Ok(value),
            ElementView::Identifier(id) => crate::interpreter::meaning::name_value(
                facts,
                env,
                id,
                crate::interpreter::meaning::failed(
                    crate::errors::undefined_variable_message(id),
                    list.line,
                ),
                depth,
            ),
        };
        let value = resolved->Ok_0;
        let next = found.push(ElementView::Value(value));
        assert forall|k: int| 0 <= k < next.len() implies (#[trigger] next[k] matches ElementView::Value(
            v,
        ) && type_of(v) == list.list_type) by {
            if k < found.len() {
                assert(next[k] == found[k]);
            }
        }
        lemma_list_from(facts, env, list, i + 1, depth, next);
    }
}

/// Lists are homogeneous: the list that a list literal evaluates to has the
/// declared element type, as many elements as the literal, and only values of
/// that type for elements.
pub proof fn lemma_list_is_homogeneous(
    facts: Seq<FactView>,
    env: EnvironmentView,
    list: ListView,
    depth: nat,
)
    requires
        list_value_from(facts, env, list, 0, depth, Seq::empty()) is Ok,
    ensures
        list_value_from(facts, env, list, 0, depth, Seq::empty()) matches Ok(ValueView::List(out))
            && out.list_type == list.list_type && out.elements.len() == list.elements.len()
            && homogeneous(out.elements, list.list_type),
{
    lemma_list_from(facts, env, list, 0, depth, Seq::empty());
}

proof fn lemma_values_from(
    facts: Seq<FactView>,
    env: EnvironmentView,
    elements: Seq<ElementView>,
    i: nat,
    line: usize,
    depth: nat,
    found: Seq<ValueView>,
)
    requires
        i <= elements.len(),
        pipe_values_from(facts, env, elements, i, line, depth, found) is Ok,
    ensures
        pipe_values_from(facts, env, elements, i, line, depth, found)->Ok_0.len() == found.len()
            + elements.len() - i,
    decreases elements.len() - i,
{
    if i < elements.len() {
        let resolved: Evaluated = match elements[i as int] {
            ElementView::Value(value) => Ok(value),
            ElementView::Identifier(id) => crate::interpreter::meaning::name_value(
                facts,
                env,
                id,
                crate::interpreter::meaning::failed(
                    crate::errors::undefined_variable_message(id),
                    line,
                ),
                depth,
            ),
        };
        lemma_values_from(facts, env, elements, i + 1, line, depth, found.push(resolved->Ok_0));
    }
}

/// The results in `results` from place `from` on are what the function named
/// `right` makes of the values from place `i` on, each in its place.
pub open spec fn mapped(
    facts: Seq<FactView>,
    env: EnvironmentView,
    right: Seq<char>,
    line: usize,
    values: Seq<ValueView>,
    depth: nat,
    results: Seq<ElementView>,
) -> bool {
    &&& results.len() == values.len()
    &&& forall|k: int|
        0 <= k < values.len() ==> named_value(facts, env, right, line, seq![values[k]], depth)
            == Ok::<ValueView, HaltView>(#[trigger] results[k]->Value_0) && results[k] is Value
}

proof fn lemma_results_from(
    facts: Seq<FactView>,
    env: EnvironmentView,
    right: Seq<char>,
    line: usize,
    values: Seq<ValueView>,
    i: nat,
    depth: nat,
    found: Seq<ElementView>,
)
    requires
        i <= values.len(),
        found.len() == i,
        forall|k: int|
            0 <= k < i ==> named_value(facts, env, right, line, seq![values[k]], depth) == Ok::<
                ValueView,
                HaltView,
            >(#[trigger] found[k]->Value_0) && found[k] is Value,
        pipe_results_from(facts, env, right, line, values, i, depth, found) is Ok,
    ensures
        mapped(
            facts,
            env,
            right,
            line,
            values,
            depth,
            pipe_results_from(facts, env, right, line, values, i, depth, found)->Ok_0,
        ),
    decreases values.len() - i,
{
    if i < values.len() {
        let result = named_value(facts, env, right, line, seq![values[i as int]], depth)->Ok_0;
        let next = found.push(ElementView::Value(result));
        assert forall|k: int| 0 <= k < i + 1 implies named_value(
            facts,
            env,
            right,
            line,
            seq![values[k]],
            depth,
        ) == Ok::<ValueView, HaltView>(#[trigger] next[k]->Value_0) && next[k] is Value by {
            if k < i {
                assert(next[k] == found[k]);
            }
        }
        lemma_results_from(facts, env, right, line, values, i + 1, depth, next);
    }
}

/// A pipe maps a list in order: where a list piped into the function named
/// `right` gives a value, that value is a list of the same length, and its
/// element at each place is what `right` makes of the list's element at that
/// place, once resolved.
pub proof fn lemma_pipe_maps_in_order(
    facts: Seq<FactView>,
    env: EnvironmentView,
    list: ListView,
    right: Seq<char>,
    line: usize,
    depth: nat,
)
    requires
        piped_value(facts, env, ValueView::List(list), right, line, depth) is Ok,
    ensures
        piped_value(facts, env, ValueView::List(list), right, line, depth) matches Ok(
            ValueView::List(out),
        ) && out.elements.len() == list.elements.len() && out.list_type == Type::List(
            Box::new(list.list_type),
        ) && mapped(
            facts,
            env,
            right,
            line,
            pipe_values_from(facts, env, list.elements, 0, line, depth, Seq::empty())->Ok_0,
            depth,
            out.elements,
        ),
{
    lemma_values_from(facts, env, list.elements, 0, line, depth, Seq::empty());
    let values = pipe_values_from(facts, env, list.elements, 0, line, depth, Seq::empty())->Ok_0;
    lemma_results_from(facts, env, right, line, values, 0, depth, Seq::empty());
}

/// What the left side of a pipe hands on: a value written there as it stands,
/// any other expression by its value.
pub open spec fn left_value(
    facts: Seq<FactView>,
    env: EnvironmentView,
    left: ExpressionView,
    depth: nat,
) -> Evaluated {
    match left {
        ExpressionView::Value(value) => Ok(value),
        _ => expression_value(facts, env, left, depth),
    }
}

/// A pipe evaluates its left side, whatever kind of expression stands there,
/// and pipes what that gives into the function named on its right.
pub proof fn lemma_pipe_evaluates_its_left(
    facts: Seq<FactView>,
    env: EnvironmentView,
    left: ExpressionView,
    right: Seq<char>,
    line: usize,
    depth: nat,
)
    ensures
        pipe_value(facts, env, left, right, line, depth) == match left_value(
            facts,
            env,
            left,
            depth,
        ) {
            Err(halt) => Err(halt),
            Ok(value) => piped_value(facts, env, value, right, line, depth),
        },
{
}

/// A pipe over a list keeps length and order, whatever expression gave the
/// list: where the left side of a pipe gives a list and the pipe gives a
/// value, that value is a list of the same length, and its element at each
/// place is what the function on the right makes of the list's element at
/// that place, once resolved.
pub proof fn lemma_pipe_over_a_list(
    facts: Seq<FactView>,
    env: EnvironmentView,
    left: ExpressionView,
    list: ListView,
    right: Seq<char>,
    line: usize,
    depth: nat,
)
    requires
        left_value(facts, env, left, depth) == Ok::<ValueView, HaltView>(ValueView::List(list)),
        pipe_value(facts, env, left, right, line, depth) is Ok,
    ensures
        pipe_value(facts, env, left, right, line, depth) matches Ok(ValueView::List(out))
            && out.elements.len() == list.elements.len() && mapped(
            facts,
            env,
            right,
            line,
            pipe_values_from(facts, env, list.elements, 0, line, depth, Seq::empty())->Ok_0,
            depth,
            out.elements,
        ),
{
    lemma_pipe_evaluates_its_left(facts, env, left, right, line, depth);
    lemma_pipe_maps_in_order(facts, env, list, right, line, depth);
}

proof fn lemma_unbound_is_not_found(scope: Seq<BindingView>, id: Seq<char>, count: nat)
    requires
        !binds(scope, id),
        count <= scope.len(),
    ensures
        find_among(scope, id, count) is None,
    decreases count,
{
    if count > 0 {
        assert(scope[count - 1].name != id);
        lemma_unbound_is_not_found(scope, id, (count - 1) as nat);
    }
}

proof fn lemma_root_scope_names(
    functions: Seq<FunctionView>,
    i: nat,
    found: Seq<BindingView>,
    id: Seq<char>,
)
    requires
        forall|k: int| 0 <= k < functions.len() ==> (#[trigger] functions[k]).definition.name.id != id,
        !binds(found, id),
        root_scope_from(functions, i, found) is Ok,
    ensures
        !binds(root_scope_from(functions, i, found)->Ok_0, id),
    decreases functions.len() - i,
{
    if i < functions.len() {
        let function = functions[i as int];
        let next = found.push(BindingView { name: function.definition.name.id, function });
        assert forall|k: int| 0 <= k < next.len() implies (#[trigger] next[k]).name != id by {
            if k < found.len() {
                assert(next[k] == found[k]);
            }
        }
        lemma_root_scope_names(functions, i + 1, next, id);
    }
}

proof fn lemma_root_scope_error(functions: Seq<FunctionView>, i: nat, found: Seq<BindingView>)
    requires
        root_scope_from(functions, i, found) is Err,
    ensures
        root_scope_from(functions, i, found) matches Err(
            HaltView::Failed(ErrorView::Interpreter(_, _)),
        ),
    decreases functions.len() - i,
{
    if i < functions.len() {
        let function = functions[i as int];
        if !binds(found, function.definition.name.id) {
            lemma_root_scope_error(
                functions,
                i + 1,
                found.push(BindingView { name: function.definition.name.id, function }),
            );
        }
    }
}

/// A program without a function named `main` evaluates to an interpreter
/// error, whatever else it defines and whatever is known about fractional
/// numbers.
pub proof fn lemma_no_main_fails(facts: Seq<FactView>, functions: Seq<FunctionView>, depth: nat)
    requires
        forall|k: int|
            0 <= k < functions.len() ==> (#[trigger] functions[k]).definition.name.id != "main"@,
    ensures
        is_interpreter_error(program_value(facts, functions, depth)),
{
    let root = root_scope_from(functions, 0, Seq::empty());
    if root is Ok {
        lemma_root_scope_names(functions, 0, Seq::empty(), "main"@);
        let scope = root->Ok_0;
        lemma_unbound_is_not_found(scope, "main"@, scope.len());
        lemma_unbound_is_not_found(Seq::empty(), "main"@, 0);
        reveal_with_fuel(lookup, 3);
        assert(lookup(root_environment(scope), "main"@) is None);
    } else {
        lemma_root_scope_error(functions, 0, Seq::empty());
    }
}

/// The sum of the first `count` numbers.
pub open spec fn sum_of(args: Seq<i64>, count: nat) -> int
    decreases count,
{
    if count == 0 || count > args.len() {
        0
    } else {
        sum_of(args, (count - 1) as nat) + args[count - 1]
    }
}

/// The product of the first `count` numbers.
pub open spec fn product_of(args: Seq<i64>, count: nat) -> int
    decreases count,
{
    if count == 0 || count > args.len() {
        1
    } else {
        product_of(args, (count - 1) as nat) * args[count - 1]
    }
}

proof fn lemma_sum_from(operator: Operator, acc: int, args: Seq<i64>, i: nat)
    requires
        operator == Operator::Add || operator == Operator::Sub,
        i <= args.len(),
        fold_from(operator, acc, args, i) is Some,
    ensures
        fits(acc) ==> fits(fold_from(operator, acc, args, i)->Some_0),
        operator == Operator::Add ==> fold_from(operator, acc, args, i)->Some_0 == acc + sum_of(
            args,
            args.len(),
        ) - sum_of(args, i),
        operator == Operator::Sub ==> fold_from(operator, acc, args, i)->Some_0 == acc - (sum_of(
            args,
            args.len(),
        ) - sum_of(args, i)),
    decreases args.len() - i,
{
    if i < args.len() {
        lemma_sum_from(operator, combine(operator, acc, args[i as int] as int), args, i + 1);
    }
}

proof fn lemma_product_from(acc: int, args: Seq<i64>, i: nat, before: int)
    requires
        i <= args.len(),
        acc == before * product_of(args, i),
        fold_from(Operator::Mul, acc, args, i) is Some,
    ensures
        fits(acc) ==> fits(fold_from(Operator::Mul, acc, args, i)->Some_0),
        fold_from(Operator::Mul, acc, args, i)->Some_0 == before * product_of(args, args.len()),
    decreases args.len() - i,
{
    if i < args.len() {
        let x = args[i as int] as int;
        assert(before * product_of(args, i) * x == before * (product_of(args, i) * x))
            by (nonlinear_arith);
        lemma_product_from(acc * x, args, i + 1, before);
    }
}

/// Where no step leaves the range of the integers, `+` gives the sum of its
/// arguments, `*` gives their product, and `-` gives the first less the sum
/// of the others.
pub proof fn lemma_folds_are_sums_and_products(operator: Operator, args: Seq<i64>)
    requires
        arithmetic(operator, args) is Ok,
        operator == Operator::Sub ==> args.len() >= 1,
    ensures
        operator == Operator::Add ==> arithmetic(operator, args)->Ok_0 == sum_of(args, args.len()),
        operator == Operator::Mul ==> arithmetic(operator, args)->Ok_0 == product_of(
            args,
            args.len(),
        ),
        operator == Operator::Sub ==> arithmetic(operator, args)->Ok_0 == args[0] - (sum_of(
            args,
            args.len(),
        ) - args[0]),
{
    if operator == Operator::Add {
        lemma_sum_from(operator, 0, args, 0);
    } else if operator == Operator::Mul {
        lemma_product_from(1, args, 0, 1);
    } else if operator == Operator::Sub {
        lemma_sum_from(operator, args[0] as int, args, 1);
        assert(sum_of(args, 1) == args[0]) by {
            reveal_with_fuel(sum_of, 2);
        }
    }
}

} // verus!
