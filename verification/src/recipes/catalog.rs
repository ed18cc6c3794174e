//! The catalog of enabled Rust recipes, and the audit that joins a candidate
//! to it.

use vstd::prelude::*;
use crate::candidate::{CandidateDisposition, TransformationCandidate};
use crate::contract::{RecipeContractError, RollbackStrategy, ValidationStep};
use crate::json::string_append;
use crate::model::SafetyClass;
use crate::order::compare_str;
use crate::recipe::TransformationRecipe;
use super::branch::equivalent_branch_factoring_recipe;
use super::branch_split::independent_branch_split_recipe;
use super::branch_terminal::{exhaustive_chain_to_match_recipe, literal_dead_arm_recipe};
use super::condition_merge::adjacent_condition_merge_recipe;
use super::extract_method::extract_method_recipe;
use super::guard_clause::guard_clause_inversion_recipe;
use super::inline_helper::inline_single_use_helper_recipe;
use super::local_cleanup::{
    inline_single_use_temporary_recipe, remove_independent_dead_local_recipe,
    remove_unused_pure_expression_recipe,
};
use super::ordering::{hoisted_private_function_order_recipe, simple_import_order_recipe};
use super::unreachable::unreachable_literal_statement_recipe;

verus! {

/// The names of the enabled recipes, in ascending order.
pub open spec fn catalog_names() -> Seq<Seq<char>> {
    seq![
        "rust-convert-exhaustive-chain-to-match"@,
        "rust-extract-sese-branch-method"@,
        "rust-factor-equivalent-branch-fragments"@,
        "rust-inline-exact-single-use-helper"@,
        "rust-inline-exact-single-use-temporary"@,
        "rust-invert-guard-clause"@,
        "rust-merge-adjacent-conditions"@,
        "rust-remove-independent-unused-literal-local"@,
        "rust-remove-literal-dead-arm"@,
        "rust-remove-unreachable-literal-statement"@,
        "rust-remove-unused-pure-literal-expression"@,
        "rust-sort-hoisted-private-function-block"@,
        "rust-sort-simple-import-block"@,
        "rust-split-independent-branch-actions"@,
    ]
}

/// The maximum safety of each enabled recipe, in catalog order.
pub open spec fn catalog_safety() -> Seq<SafetyClass> {
    seq![
        SafetyClass::SafeWithPrecondition,
        SafetyClass::SafeWithPrecondition,
        SafetyClass::SafeWithPrecondition,
        SafetyClass::SafeWithPrecondition,
        SafetyClass::SafeWithPrecondition,
        SafetyClass::SafeWithPrecondition,
        SafetyClass::SafeWithPrecondition,
        SafetyClass::SafeAuto,
        SafetyClass::SafeWithPrecondition,
        SafetyClass::SafeAuto,
        SafetyClass::SafeAuto,
        SafetyClass::SafeWithPrecondition,
        SafetyClass::SafeWithPrecondition,
        SafetyClass::SafeWithPrecondition,
    ]
}

/// The recipes whose candidates may be applied without review.
pub open spec fn safe_auto_names() -> Seq<Seq<char>> {
    seq![
        "rust-remove-independent-unused-literal-local"@,
        "rust-remove-unreachable-literal-statement"@,
        "rust-remove-unused-pure-literal-expression"@,
    ]
}

/// The recipe at `i` is the well-formed enabled recipe of that place.
pub open spec fn catalog_entry(r: TransformationRecipe, i: int) -> bool {
    r.wf() && r.spec_draft().name@ == catalog_names()[i] && r.spec_draft().maximum_safety == catalog_safety()[i]
}

/// A catalog holds the enabled recipes, well formed, in name order.
pub open spec fn is_enabled_catalog(v: Seq<TransformationRecipe>) -> bool {
    &&& v.len() == catalog_names().len()
    &&& forall|i: int| 0 <= i < v.len() ==> catalog_entry(#[trigger] v[i], i)
}

/// The enabled recipe at place `index` of the catalog.
#[verifier::rlimit(40)]
fn catalog_recipe(index: usize) -> (r: Result<TransformationRecipe, RecipeContractError>)
    requires
        index < 14,
    ensures
        r is Ok,
        r matches Ok(x) ==> catalog_entry(x, index as int),
{
    match index {
        0 => exhaustive_chain_to_match_recipe(),
        1 => extract_method_recipe(),
        2 => equivalent_branch_factoring_recipe(),
        3 => inline_single_use_helper_recipe(),
        4 => inline_single_use_temporary_recipe(),
        5 => guard_clause_inversion_recipe(),
        6 => adjacent_condition_merge_recipe(),
        7 => remove_independent_dead_local_recipe(),
        8 => literal_dead_arm_recipe(),
        9 => unreachable_literal_statement_recipe(),
        10 => remove_unused_pure_expression_recipe(),
        11 => hoisted_private_function_order_recipe(),
        12 => simple_import_order_recipe(),
        _ => independent_branch_split_recipe(),
    }
}

/// The catalog of every recipe the Rust detectors use, in ascending order
/// of name.
pub fn enabled_rust_recipe_catalog() -> (r: Result<Vec<TransformationRecipe>, RecipeContractError>)
    ensures
        r is Ok,
        r matches Ok(v) ==> is_enabled_catalog(v@),
{
    let mut recipes: Vec<TransformationRecipe> = Vec::new();
    let mut i: usize = 0;
    while i < 14
        invariant
            i <= 14,
            recipes@.len() == i,
            forall|k: int| 0 <= k < i ==> catalog_entry(#[trigger] recipes@[k], k),
        decreases 14 - i,
    {
        let recipe = catalog_recipe(i)?;
        recipes.push(recipe);
        i = i + 1;
    }
    Ok(recipes)
}

/// The first recipe of the catalog with the given name.
pub open spec fn find_recipe(catalog: Seq<TransformationRecipe>, name: Seq<char>) -> Option<TransformationRecipe>
    decreases catalog.len(),
{
    if catalog.len() == 0 {
        None
    } else if catalog[0].spec_draft().name@ == name {
        Some(catalog[0])
    } else {
        find_recipe(catalog.drop_first(), name)
    }
}

/// Some required validation step has the key.
pub open spec fn rollback_covers(rollback_steps: Seq<String>, steps: Seq<ValidationStep>) -> bool {
    forall|i: int| 0 <= i < steps.len() && (#[trigger] steps[i]).required ==> exists|j: int|
        0 <= j < rollback_steps.len() && (#[trigger] rollback_steps[j])@ == steps[i].key@
}

/// What the audit demands of a candidate of a well-formed catalog: its
/// recipe is the catalog's recipe of that name, with the same identity; it
/// has at least one edit and every edit carries a revision guard; it
/// expects some graph change; some validation step is required and the
/// rollback reverses exact edits under revision guards and repeats every
/// required step; and an automatic candidate is safe-auto and comes from a
/// safe-auto recipe.
pub open spec fn audit_passes(catalog: Seq<TransformationRecipe>, c: TransformationCandidate) -> bool {
    let d = c.spec_draft();
    let name = d.recipe.spec_draft().name@;
    &&& find_recipe(catalog, name) matches Some(recipe) && recipe.spec_id() == d.recipe.spec_id()
    &&& d.edits@.len() > 0
    &&& forall|i: int| 0 <= i < d.edits@.len() ==> (#[trigger] d.edits@[i]).revision_guard@.len() > 0
    &&& d.expected_delta.changes@.len() > 0
    &&& exists|i: int| 0 <= i < d.validation_plan.steps@.len() && (#[trigger] d.validation_plan.steps@[i]).required
    &&& d.rollback_plan.strategy == RollbackStrategy::ReverseExactEdits
    &&& d.rollback_plan.require_revision_guards
    &&& rollback_covers(d.rollback_plan.validation_steps@, d.validation_plan.steps@)
    &&& d.disposition == CandidateDisposition::Automatic ==> d.safety == SafetyClass::SafeAuto
        && safe_auto_names().contains(name)
}

fn find_recipe_index(catalog: &Vec<TransformationRecipe>, name: &str) -> (r: Option<usize>)
    ensures
        r is None ==> find_recipe(catalog@, name@) is None,
        r matches Some(i) ==> i < catalog@.len() && find_recipe(catalog@, name@) == Some(catalog@[i as int]),
{
    let n = catalog.len();
    let mut i: usize = 0;
    assert(catalog@.subrange(0, n as int) =~= catalog@);
    while i < n
        invariant
            n == catalog@.len(),
            i <= n,
            find_recipe(catalog@, name@) == find_recipe(catalog@.subrange(i as int, n as int), name@),
        decreases n - i,
    {
        let ghost rest = catalog@.subrange(i as int, n as int);
        assert(rest.drop_first() =~= catalog@.subrange(i + 1, n as int));
        if compare_str(catalog[i].name(), name) == 0 {
            return Some(i);
        }
        i = i + 1;
    }
    None
}

fn is_safe_auto_name(name: &str) -> (r: bool)
    ensures
        r == safe_auto_names().contains(name@),
{
    let a = "rust-remove-independent-unused-literal-local";
    let b = "rust-remove-unreachable-literal-statement";
    let c = "rust-remove-unused-pure-literal-expression";
    let r = compare_str(name, a) == 0 || compare_str(name, b) == 0 || compare_str(name, c) == 0;
    proof {
        let s = safe_auto_names();
        assert(s[0] == a@ && s[1] == b@ && s[2] == c@);
        if s.contains(name@) {
            let k = choose|k: int| 0 <= k < s.len() && s[k] == name@;
        }
    }
    r
}

fn rollback_covers_exec(rollback_steps: &Vec<String>, steps: &Vec<ValidationStep>) -> (r: bool)
    ensures
        r == rollback_covers(rollback_steps@, steps@),
{
    let n = steps.len();
    let m = rollback_steps.len();
    let mut i: usize = 0;
    while i < n
        invariant
            n == steps@.len(),
            m == rollback_steps@.len(),
            i <= n,
            forall|k: int| 0 <= k < i && (#[trigger] steps@[k]).required ==> exists|j: int|
                0 <= j < rollback_steps@.len() && (#[trigger] rollback_steps@[j])@ == steps@[k].key@,
        decreases n - i,
    {
        if steps[i].required {
            let mut found = false;
            let mut j: usize = 0;
            while j < m
                invariant
                    n == steps@.len(),
                    m == rollback_steps@.len(),
                    i < n,
                    j <= m,
                    found ==> exists|x: int| 0 <= x < rollback_steps@.len() && (#[trigger] rollback_steps@[x])@
                        == steps@[i as int].key@,
                    !found ==> forall|x: int| 0 <= x < j ==> (#[trigger] rollback_steps@[x])@ != steps@[i as int].key@,
                decreases m - j,
            {
                if compare_str(rollback_steps[j].as_str(), steps[i].key.as_str()) == 0 {
                    found = true;
                }
                j = j + 1;
            }
            if !found {
                return false;
            }
        }
        i = i + 1;
    }
    true
}

/// Audits a candidate against a catalog: succeeds exactly when
/// `audit_passes` holds.
pub fn audit_candidate_in_catalog(catalog: &Vec<TransformationRecipe>, candidate: &TransformationCandidate) -> (r:
    Result<(), String>)
    ensures
        r is Ok <==> audit_passes(catalog@, *candidate),
{
    let recipe = candidate.recipe();
    let index = match find_recipe_index(catalog, recipe.name()) {
        Some(i) => i,
        None => {
            let mut message = "candidate ".to_owned();
            string_append(&mut message, candidate.id());
            string_append(&mut message, " belongs to a detector outside the enabled catalog");
            return Err(message);
        },
    };
    if compare_str(catalog[index].id(), recipe.id()) != 0 {
        return Err("candidate recipe identity differs from the enabled catalog".to_owned());
    }
    let edits = candidate.edits();
    let ne = edits.len();
    if ne == 0 {
        return Err("enabled candidate lacks an exact revision-guarded patch".to_owned());
    }
    let mut k: usize = 0;
    while k < ne
        invariant
            ne == edits@.len(),
            edits@ == candidate.spec_draft().edits@,
            k <= ne,
            forall|x: int| 0 <= x < k ==> (#[trigger] edits@[x]).revision_guard@.len() > 0,
        decreases ne - k,
    {
        if edits[k].revision_guard.unicode_len() == 0 {
            assert(candidate.spec_draft().edits@[k as int].revision_guard@.len() == 0);
            return Err("enabled candidate lacks an exact revision-guarded patch".to_owned());
        }
        k = k + 1;
    }
    if candidate.expected_delta().changes.len() == 0 {
        return Err("enabled candidate lacks an expected graph delta".to_owned());
    }
    let steps = &candidate.validation_plan().steps;
    let ns = steps.len();
    let mut any_required = false;
    let mut s: usize = 0;
    while s < ns
        invariant
            ns == steps@.len(),
            *steps == candidate.spec_draft().validation_plan.steps,
            s <= ns,
            any_required == exists|x: int| 0 <= x < s && (#[trigger] steps@[x]).required,
        decreases ns - s,
    {
        if steps[s].required {
            any_required = true;
        }
        s = s + 1;
    }
    if !any_required {
        return Err("enabled candidate lacks required verification".to_owned());
    }
    let rollback = candidate.rollback_plan();
    if rollback.strategy != RollbackStrategy::ReverseExactEdits || !rollback.require_revision_guards
        || !rollback_covers_exec(&rollback.validation_steps, steps) {
        return Err("enabled candidate rollback does not cover every required verification".to_owned());
    }
    if candidate.disposition() == CandidateDisposition::Automatic && (candidate.safety()
        != SafetyClass::SafeAuto || !is_safe_auto_name(recipe.name())) {
        return Err("automatic candidate is outside the audited SafeAuto frontier".to_owned());
    }
    Ok(())
}

/// Audits a candidate emitted by an enabled detector against the enabled
/// catalog.
pub fn audit_m5_candidate(candidate: &TransformationCandidate) -> (r: Result<(), String>)
    ensures
        r is Ok ==> exists|catalog: Seq<TransformationRecipe>| is_enabled_catalog(catalog) && audit_passes(
            catalog,
            *candidate,
        ),
        r is Err ==> exists|catalog: Seq<TransformationRecipe>| is_enabled_catalog(catalog) && !audit_passes(
            catalog,
            *candidate,
        ),
{
    let catalog = match enabled_rust_recipe_catalog() {
        Ok(c) => c,
        Err(e) => {
            return Err(e.message());
        },
    };
    audit_candidate_in_catalog(&catalog, candidate)
}

} // verus!
