//! The Vulkan instance: the layers and extensions the engine asks for, the
//! merged list of instance extensions, and the check of the layers.

use vstd::prelude::*;

use crate::vulkan::{api_version, make_api_version};
use crate::PixelEngine;

verus! {

/// The character sequences of a list of names.
pub open spec fn names(v: Seq<String>) -> Seq<Seq<char>> {
    v.map_values(|s: String| s@)
}

/// The character sequences of each of several lists of names.
pub open spec fn name_lists(v: Seq<Vec<String>>) -> Seq<Seq<Seq<char>>> {
    v.map_values(|l: Vec<String>| names(l@))
}

/// `acc` followed by each name of `new`, in order, that is not in the list
/// built so far.
pub open spec fn append_new(acc: Seq<Seq<char>>, new: Seq<Seq<char>>) -> Seq<Seq<char>>
    decreases new.len(),
{
    if new.len() == 0 {
        acc
    } else {
        let a = append_new(acc, new.drop_last());
        if a.contains(new.last()) {
            a
        } else {
            a.push(new.last())
        }
    }
}

/// The instance extensions: every global extension, then the extensions of
/// each layer in turn that are not listed yet.
pub open spec fn merged_extensions(global: Seq<Seq<char>>, layers: Seq<Seq<Seq<char>>>) -> Seq<Seq<char>>
    decreases layers.len(),
{
    if layers.len() == 0 {
        global
    } else {
        append_new(merged_extensions(global, layers.drop_last()), layers.last())
    }
}

/// Every name of `required` is in `available`.
pub open spec fn all_present(required: Seq<Seq<char>>, available: Seq<Seq<char>>) -> bool {
    forall|i: int| 0 <= i < required.len() ==> available.contains(#[trigger] required[i])
}

/// The layers the engine enables.
pub open spec fn engine_layers() -> Seq<Seq<char>> {
    seq![
        "VK_LAYER_KHRONOS_profiles"@,
        "VK_LAYER_KHRONOS_validation"@,
        "VK_LAYER_AMD_switchable_graphics"@,
    ]
}

/// The surface extensions the engine needs on its target platform.
pub open spec fn surface_extensions() -> Seq<Seq<char>> {
    seq!["VK_KHR_surface"@, "VK_KHR_win32_surface"@]
}

/// The instance extensions the engine enables: the surface extensions, then
/// debug utils, debug report and device group creation.
pub open spec fn engine_instance_extensions() -> Seq<Seq<char>> {
    surface_extensions() + seq![
        "VK_EXT_debug_utils"@,
        "VK_EXT_debug_report"@,
        "VK_KHR_device_group_creation"@,
    ]
}

/// What the instance is created with.
#[derive(Debug)]
pub struct InstancePlan {
    pub engine_name: String,
    pub api_version: u32,
    pub layers: Vec<String>,
    pub extensions: Vec<String>,
}

proof fn lemma_names_push(v: Seq<String>, s: String)
    ensures
        names(v.push(s)) == names(v).push(s@),
{
    assert(names(v.push(s)) =~= names(v).push(s@));
}

/// `append_new` keeps `acc` as its prefix, holds every name of `acc` and of
/// `new`, holds no other name, and adds each name at most once.
pub proof fn lemma_append_new(acc: Seq<Seq<char>>, new: Seq<Seq<char>>)
    ensures
        append_new(acc, new).len() >= acc.len(),
        forall|i: int| 0 <= i < acc.len() ==> #[trigger] append_new(acc, new)[i] == acc[i],
        forall|i: int| 0 <= i < new.len() ==> append_new(acc, new).contains(#[trigger] new[i]),
        forall|x: Seq<char>| #[trigger]
            append_new(acc, new).contains(x) ==> acc.contains(x) || new.contains(x),
        forall|j: int|
            acc.len() <= j < append_new(acc, new).len() ==> !append_new(acc, new).take(j).contains(
                #[trigger] append_new(acc, new)[j],
            ),
    decreases new.len(),
{
    if new.len() > 0 {
        let rest = new.drop_last();
        lemma_append_new(acc, rest);
        let a = append_new(acc, rest);
        let r = append_new(acc, new);
        assert forall|i: int| 0 <= i < new.len() implies r.contains(#[trigger] new[i]) by {
            if i < new.len() - 1 {
                assert(rest[i] == new[i]);
                assert(a.contains(rest[i]));
                if !a.contains(new.last()) {
                    let k = choose|k: int| 0 <= k < a.len() && a[k] == new[i];
                    assert(r[k] == new[i]);
                }
            } else {
                if !a.contains(new.last()) {
                    assert(r[a.len() as int] == new.last());
                }
            }
        }
        assert forall|x: Seq<char>| #[trigger] r.contains(x) implies acc.contains(x) || new.contains(x) by {
            let k = choose|k: int| 0 <= k < r.len() && r[k] == x;
            if k < a.len() {
                assert(a[k] == x);
                assert(a.contains(x));
                if rest.contains(x) {
                    let m = choose|m: int| 0 <= m < rest.len() && rest[m] == x;
                    assert(new[m] == x);
                }
            } else {
                assert(new[new.len() - 1] == x);
            }
        }
        if !a.contains(new.last()) {
            assert forall|j: int| acc.len() <= j < r.len() implies !r.take(j).contains(#[trigger] r[j]) by {
                if j < a.len() {
                    assert(r.take(j) =~= a.take(j));
                } else {
                    assert(r.take(j) =~= a);
                }
            }
        }
    }
}

/// When every name of `new` is already in `acc`, `append_new` adds nothing.
pub proof fn lemma_append_new_noop(acc: Seq<Seq<char>>, new: Seq<Seq<char>>)
    requires
        all_present(new, acc),
    ensures
        append_new(acc, new) == acc,
    decreases new.len(),
{
    if new.len() > 0 {
        let rest = new.drop_last();
        assert forall|i: int| 0 <= i < rest.len() implies acc.contains(#[trigger] rest[i]) by {
            assert(rest[i] == new[i]);
        }
        lemma_append_new_noop(acc, rest);
        assert(acc.contains(new[new.len() - 1]));
    }
}

/// The merged list starts with the global extensions, holds every extension
/// of every list and no other name, and adds each layer extension at most
/// once and only when it is not among the global extensions.
pub proof fn lemma_merged_extensions(global: Seq<Seq<char>>, layers: Seq<Seq<Seq<char>>>)
    ensures
        merged_extensions(global, layers).len() >= global.len(),
        forall|i: int| 0 <= i < global.len() ==> #[trigger] merged_extensions(global, layers)[i] == global[i],
        forall|l: int, i: int|
            0 <= l < layers.len() && 0 <= i < layers[l].len() ==> merged_extensions(global, layers).contains(
                #[trigger] layers[l][i],
            ),
        forall|x: Seq<char>| #[trigger]
            merged_extensions(global, layers).contains(x) ==> global.contains(x) || exists|l: int|
                0 <= l < layers.len() && #[trigger] layers[l].contains(x),
        forall|j: int|
            global.len() <= j < merged_extensions(global, layers).len() ==> !merged_extensions(
                global,
                layers,
            ).take(j).contains(#[trigger] merged_extensions(global, layers)[j]),
    decreases layers.len(),
{
    if layers.len() > 0 {
        let rest = layers.drop_last();
        let m = merged_extensions(global, rest);
        let r = merged_extensions(global, layers);
        lemma_merged_extensions(global, rest);
        lemma_append_new(m, layers.last());
        assert forall|l: int, i: int| 0 <= l < layers.len() && 0 <= i < layers[l].len() implies r.contains(
            #[trigger] layers[l][i],
        ) by {
            if l < layers.len() - 1 {
                assert(rest[l] == layers[l]);
                assert(m.contains(rest[l][i]));
                let k = choose|k: int| 0 <= k < m.len() && m[k] == rest[l][i];
                assert(r[k] == m[k]);
            } else {
                assert(layers.last()[i] == layers[l][i]);
            }
        }
        assert forall|x: Seq<char>| #[trigger] r.contains(x) implies global.contains(x) || exists|l: int|
            0 <= l < layers.len() && #[trigger] layers[l].contains(x) by {
            if m.contains(x) {
                if !global.contains(x) {
                    let l = choose|l: int| 0 <= l < rest.len() && #[trigger] rest[l].contains(x);
                    assert(layers[l] == rest[l]);
                }
            } else {
                assert(layers[layers.len() - 1] == layers.last());
                assert(layers[layers.len() - 1].contains(x));
            }
        }
        assert forall|j: int| global.len() <= j < r.len() implies !r.take(j).contains(#[trigger] r[j]) by {
            if j < m.len() {
                assert(r[j] == m[j]);
                assert(r.take(j) =~= m.take(j));
            }
        }
    }
}

/// A list of names without repeats stays without repeats once the layer
/// extensions are merged in.
pub proof fn lemma_merged_no_duplicates(global: Seq<Seq<char>>, layers: Seq<Seq<Seq<char>>>)
    requires
        global.no_duplicates(),
    ensures
        merged_extensions(global, layers).no_duplicates(),
{
    let r = merged_extensions(global, layers);
    lemma_merged_extensions(global, layers);
    assert forall|i: int, j: int| 0 <= i < r.len() && 0 <= j < r.len() && i != j implies r[i] != r[j] by {
        let (a, b) = if i < j { (i, j) } else { (j, i) };
        if b < global.len() {
            assert(r[a] == global[a] && r[b] == global[b]);
        } else {
            assert(r.take(b)[a] == r[a]);
            assert(!r.take(b).contains(r[b]));
        }
    }
}

/// Merging the same layer extensions a second time changes nothing.
pub proof fn lemma_merged_idempotent(global: Seq<Seq<char>>, layers: Seq<Seq<Seq<char>>>)
    ensures
        merged_extensions(merged_extensions(global, layers), layers) == merged_extensions(global, layers),
    decreases layers.len(),
{
    let m = merged_extensions(global, layers);
    lemma_merged_extensions(global, layers);
    lemma_merged_over_present(m, layers);
}

/// Merging lists whose names are all present already adds nothing.
proof fn lemma_merged_over_present(acc: Seq<Seq<char>>, layers: Seq<Seq<Seq<char>>>)
    requires
        forall|l: int, i: int| 0 <= l < layers.len() && 0 <= i < layers[l].len() ==> acc.contains(
            #[trigger] layers[l][i],
        ),
    ensures
        merged_extensions(acc, layers) == acc,
    decreases layers.len(),
{
    if layers.len() > 0 {
        let rest = layers.drop_last();
        assert forall|l: int, i: int| 0 <= l < rest.len() && 0 <= i < rest[l].len() implies acc.contains(
            #[trigger] rest[l][i],
        ) by {
            assert(rest[l] == layers[l]);
        }
        lemma_merged_over_present(acc, rest);
        assert forall|i: int| 0 <= i < layers.last().len() implies acc.contains(#[trigger] layers.last()[i]) by {
            assert(layers.last() == layers[layers.len() - 1]);
        }
        lemma_append_new_noop(acc, layers.last());
    }
}

/// The layer check is a membership test for each required name.
pub proof fn lemma_all_present_membership(required: Seq<Seq<char>>, available: Seq<Seq<char>>)
    ensures
        all_present(required, available) <==> (forall|x: Seq<char>| #[trigger]
            required.contains(x) ==> available.contains(x)),
{
    if all_present(required, available) {
        assert forall|x: Seq<char>| #[trigger] required.contains(x) implies available.contains(x) by {
            let i = choose|i: int| 0 <= i < required.len() && required[i] == x;
            assert(available.contains(required[i]));
        }
    }
    if forall|x: Seq<char>| #[trigger] required.contains(x) ==> available.contains(x) {
        assert forall|i: int| 0 <= i < required.len() implies available.contains(#[trigger] required[i]) by {
            assert(required.contains(required[i]));
        }
    }
}

/// The check does not depend on the order (or repeats) of either list: two
/// available lists with the same names pass the same required lists, and
/// two required lists with the same names pass against the same list.
pub proof fn lemma_all_present_order_independent(
    required: Seq<Seq<char>>,
    required2: Seq<Seq<char>>,
    available: Seq<Seq<char>>,
    available2: Seq<Seq<char>>,
)
    requires
        forall|x: Seq<char>| #[trigger] available.contains(x) <==> available2.contains(x),
        forall|x: Seq<char>| #[trigger] required.contains(x) <==> required2.contains(x),
    ensures
        all_present(required, available) == all_present(required2, available2),
{
    lemma_all_present_membership(required, available);
    lemma_all_present_membership(required2, available2);
    if all_present(required, available) {
        assert forall|x: Seq<char>| #[trigger] required2.contains(x) implies available2.contains(x) by {
            assert(required.contains(x));
            assert(available.contains(x));
        }
    }
    if all_present(required2, available2) {
        assert forall|x: Seq<char>| #[trigger] required.contains(x) implies available.contains(x) by {
            assert(required2.contains(x));
            assert(available2.contains(x));
        }
    }
}

/// Swapping two names in the available list keeps the check passing:
/// `[x, y]` is present in `[y, x]`.
pub proof fn lemma_all_present_swapped(x: Seq<char>, y: Seq<char>)
    ensures
        all_present(seq![x, y], seq![y, x]),
{
    let a = seq![y, x];
    assert(a[1] == x);
    assert(a[0] == y);
}

/// A name missing from the available list fails the check.
pub proof fn lemma_all_present_missing(required: Seq<Seq<char>>, available: Seq<Seq<char>>, i: int)
    requires
        0 <= i < required.len(),
        !available.contains(required[i]),
    ensures
        !all_present(required, available),
{
}

/// Every list of names holds all the names of itself: the check of the
/// engine's layers against the same list always passes.
pub proof fn lemma_all_present_reflexive(v: Seq<Seq<char>>)
    ensures
        all_present(v, v),
{
    assert forall|i: int| 0 <= i < v.len() implies v.contains(#[trigger] v[i]) by {}
}

impl PixelEngine {
    /// The validation and profile layers the engine enables.
    pub fn default_layers() -> (layers: Vec<String>)
        ensures
            names(layers@) == engine_layers(),
    {
        let mut layers: Vec<String> = Vec::new();
        layers.push("VK_LAYER_KHRONOS_profiles".to_owned());
        layers.push("VK_LAYER_KHRONOS_validation".to_owned());
        layers.push("VK_LAYER_AMD_switchable_graphics".to_owned());
        assert(names(layers@) =~= engine_layers());
        layers
    }

    /// The surface extensions of the engine's target platform (Windows).
    pub fn necessary_surface_extensions() -> (extensions: Vec<String>)
        ensures
            names(extensions@) == surface_extensions(),
    {
        let mut extensions: Vec<String> = Vec::new();
        extensions.push("VK_KHR_surface".to_owned());
        extensions.push("VK_KHR_win32_surface".to_owned());
        assert(names(extensions@) =~= surface_extensions());
        extensions
    }

    /// The instance extensions the engine enables.
    pub fn instance_extensions() -> (extensions: Vec<String>)
        ensures
            names(extensions@) == engine_instance_extensions(),
    {
        let mut extensions = Self::necessary_surface_extensions();
        extensions.push("VK_EXT_debug_utils".to_owned());
        extensions.push("VK_EXT_debug_report".to_owned());
        extensions.push("VK_KHR_device_group_creation".to_owned());
        assert(names(extensions@) =~= engine_instance_extensions());
        extensions
    }

    /// The settings of the engine's instance: engine name "Pixel", API
    /// version 1.2.0, the default layers and the engine's instance extensions.
    pub fn instance_plan() -> (plan: InstancePlan)
        ensures
            plan.engine_name@ == "Pixel"@,
            plan.api_version == api_version(0, 1, 2, 0),
            plan.api_version == 0x0040_2000,
            names(plan.layers@) == engine_layers(),
            names(plan.extensions@) == engine_instance_extensions(),
    {
        let v = make_api_version(0, 1, 2, 0);
        assert(api_version(0, 1, 2, 0) == 0x0040_2000) by (bit_vector);
        InstancePlan {
            engine_name: "Pixel".to_owned(),
            api_version: v,
            layers: Self::default_layers(),
            extensions: Self::instance_extensions(),
        }
    }

    /// Whether `list` holds a name equal to `name`.
    fn contains_name(list: &Vec<String>, name: &String) -> (found: bool)
        ensures
            found == names(list@).contains(name@),
    {
        let mut i: usize = 0;
        while i < list.len()
            invariant
                i <= list.len(),
                forall|j: int| 0 <= j < i ==> list@[j]@ != name@,
            decreases list.len() - i,
        {
            if list[i] == *name {
                assert(names(list@)[i as int] == name@);
                return true;
            }
            i += 1;
        }
        proof {
            if names(list@).contains(name@) {
                let j = choose|j: int| 0 <= j < names(list@).len() && names(list@)[j] == name@;
                assert(list@[j]@ == name@);
            }
        }
        false
    }

    /// Whether every layer of `required` is among `available`.
    pub fn layers_present(required: &Vec<String>, available: &Vec<String>) -> (present: bool)
        ensures
            present == all_present(names(required@), names(available@)),
            present <==> forall|i: int|
                0 <= i < required.len() ==> #[trigger] names(available@).contains(required@[i]@),
    {
        let mut i: usize = 0;
        while i < required.len()
            invariant
                i <= required.len(),
                forall|j: int| 0 <= j < i ==> names(available@).contains(#[trigger] names(required@)[j]),
            decreases required.len() - i,
        {
            if !Self::contains_name(available, &required[i]) {
                assert(!names(available@).contains(names(required@)[i as int]));
                assert(names(required@)[i as int] == required@[i as int]@);
                return false;
            }
            i += 1;
        }
        assert forall|j: int| 0 <= j < required.len() implies #[trigger] names(available@).contains(
            required@[j]@,
        ) by {
            assert(names(required@)[j] == required@[j]@);
        }
        true
    }

    /// The instance extensions on offer: every global extension (`global`),
    /// then, layer after layer (`per_layer[l]` are the extensions of layer
    /// `l`), each extension that is not listed yet.
    pub fn available_instance_extensions(global: &Vec<String>, per_layer: &Vec<Vec<String>>) -> (extensions: Vec<String>)
        ensures
            names(extensions@) == merged_extensions(names(global@), name_lists(per_layer@)),
    {
        let mut extensions: Vec<String> = Vec::new();
        let mut i: usize = 0;
        while i < global.len()
            invariant
                i <= global.len(),
                names(extensions@) == names(global@.take(i as int)),
            decreases global.len() - i,
        {
            proof {
                lemma_names_push(extensions@, global@[i as int]);
                assert(global@.take(i + 1) =~= global@.take(i as int).push(global@[i as int]));
                lemma_names_push(global@.take(i as int), global@[i as int]);
            }
            extensions.push(global[i].clone());
            i += 1;
        }
        assert(global@.take(global.len() as int) =~= global@);

        let mut l: usize = 0;
        while l < per_layer.len()
            invariant
                l <= per_layer.len(),
                names(extensions@) == merged_extensions(names(global@), name_lists(per_layer@.take(l as int))),
            decreases per_layer.len() - l,
        {
            let layer = &per_layer[l];
            let ghost base = names(extensions@);
            let mut k: usize = 0;
            while k < layer.len()
                invariant
                    k <= layer.len(),
                    names(extensions@) == append_new(base, names(layer@.take(k as int))),
                decreases layer.len() - k,
            {
                let ghost prev = names(extensions@);
                let name = &layer[k];
                proof {
                    assert(names(layer@.take(k + 1)).drop_last() =~= names(layer@.take(k as int)));
                    assert(names(layer@.take(k + 1)).last() == name@);
                }
                if !Self::contains_name(&extensions, name) {
                    proof {
                        lemma_names_push(extensions@, *name);
                    }
                    extensions.push(name.clone());
                }
                k += 1;
            }
            proof {
                assert(layer@.take(layer.len() as int) =~= layer@);
                assert(name_lists(per_layer@.take(l + 1)).drop_last() =~= name_lists(per_layer@.take(l as int)));
                assert(name_lists(per_layer@.take(l + 1)).last() == names(layer@));
            }
            l += 1;
        }
        assert(per_layer@.take(per_layer.len() as int) =~= per_layer@);
        extensions
    }
}

} // verus!
