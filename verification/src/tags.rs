//! Feature tag filtering: a tile layer carries parallel key and value
//! tables, and each feature references them by an alternating list of
//! key and value indices.  The filters decide which features a style
//! rule selects.

use vstd::prelude::*;

verus! {

/// The tag tables of one tile layer: the key names and, for each value
/// slot, its string form.
pub struct LayerTags {
    pub keys: Vec<String>,
    pub values: Vec<String>,
}

/// Whether a feature's tag list is usable against the layer's tables:
/// whole key/value pairs whose indices stay inside the tables.
pub open spec fn tags_wf(layer_keys: Seq<String>, layer_values: Seq<String>, tags: Seq<u32>) -> bool {
    &&& tags.len() % 2 == 0
    &&& forall|i: int|
        0 <= 2 * i < tags.len() ==> (#[trigger] tags[2 * i] as int) < layer_keys.len() && (tags[2
            * i + 1] as int) < layer_values.len()
}

/// Whether some tag pair of the feature maps the given key to the given
/// value.
pub open spec fn spec_has_key_value(
    layer_keys: Seq<String>,
    layer_values: Seq<String>,
    tags: Seq<u32>,
    key: Seq<char>,
    value: Seq<char>,
) -> bool {
    exists|i: int|
        0 <= 2 * i < tags.len() && (#[trigger] layer_keys[tags[2 * i] as int])@ == key
            && layer_values[tags[2 * i + 1] as int]@ == value
}

/// Whether some tag pair of the feature maps the given key to any of
/// the given values.
pub open spec fn spec_has_key_any_value(
    layer_keys: Seq<String>,
    layer_values: Seq<String>,
    tags: Seq<u32>,
    key: Seq<char>,
    values: Seq<String>,
) -> bool {
    exists|i: int, j: int|
        0 <= 2 * i < tags.len() && (#[trigger] layer_keys[tags[2 * i] as int])@ == key && 0 <= j
            < values.len() && layer_values[tags[2 * i + 1] as int]@ == (#[trigger] values[j])@
}

/// True when some tag pair of the feature maps `key` to `value`.
pub fn has_key_value(layer: &LayerTags, tags: &Vec<u32>, key: &String, value: &String) -> (r: bool)
    requires
        tags_wf(layer.keys@, layer.values@, tags@),
    ensures
        r == spec_has_key_value(layer.keys@, layer.values@, tags@, key@, value@),
{
    let n = tags.len();
    let mut i: usize = 0;
    while i < n
        invariant
            0 <= i <= n,
            i % 2 == 0,
            n == tags@.len(),
            tags_wf(layer.keys@, layer.values@, tags@),
            forall|k: int|
                0 <= 2 * k < i ==> !((#[trigger] layer.keys@[tags@[2 * k] as int])@ == key@
                    && layer.values@[tags@[2 * k + 1] as int]@ == value@),
        decreases n - i,
    {
        proof {
            let w = i as int / 2;
            assert(2 * w == i as int);
            assert((tags@[2 * w] as int) < layer.keys@.len() && (tags@[2 * w + 1] as int)
                < layer.values@.len());
            assert(i as int + 1 < n as int);
        }
        let prop_index = tags[i];
        let curr_key = &layer.keys[prop_index as usize];
        if curr_key.eq(key) {
            let value_index = tags[i + 1];
            let curr_value = &layer.values[value_index as usize];
            if curr_value.eq(value) {
                proof {
                    let w = i as int / 2;
                    assert(0 <= 2 * w < tags@.len() && (layer.keys@[tags@[2 * w] as int])@ == key@
                        && layer.values@[tags@[2 * w + 1] as int]@ == value@);
                }
                return true;
            }
        }
        i += 2;
    }
    proof {
        assert forall|k: int| 0 <= 2 * k < tags@.len() implies !((
        #[trigger] layer.keys@[tags@[2 * k] as int])@ == key@ && layer.values@[tags@[2 * k
            + 1] as int]@ == value@) by {}
    }
    false
}

/// True when no tag pair of the feature maps `key` to `value`.
pub fn has_not_key_value(layer: &LayerTags, tags: &Vec<u32>, key: &String, value: &String) -> (r:
    bool)
    requires
        tags_wf(layer.keys@, layer.values@, tags@),
    ensures
        r == !spec_has_key_value(layer.keys@, layer.values@, tags@, key@, value@),
{
    !has_key_value(layer, tags, key, value)
}

/// True when some tag pair of the feature maps `key` to any one of
/// `values`.
pub fn has_key_any_value(
    layer: &LayerTags,
    tags: &Vec<u32>,
    key: &String,
    values: &Vec<String>,
) -> (r: bool)
    requires
        tags_wf(layer.keys@, layer.values@, tags@),
    ensures
        r == spec_has_key_any_value(layer.keys@, layer.values@, tags@, key@, values@),
{
    let n = tags.len();
    let mut i: usize = 0;
    while i < n
        invariant
            0 <= i <= n,
            i % 2 == 0,
            n == tags@.len(),
            tags_wf(layer.keys@, layer.values@, tags@),
            forall|k: int, j: int|
                0 <= 2 * k < i && 0 <= j < values@.len() ==> !((
                #[trigger] layer.keys@[tags@[2 * k] as int])@ == key@ && layer.values@[tags@[2 * k
                    + 1] as int]@ == (#[trigger] values@[j])@),
        decreases n - i,
    {
        proof {
            let w = i as int / 2;
            assert(2 * w == i as int);
            assert(0 <= 2 * w < tags@.len());
            assert((tags@[2 * w] as int) < layer.keys@.len());
            assert((tags@[2 * w + 1] as int) < layer.values@.len());
            assert(i as int + 1 < n as int);
        }
        let prop_index = tags[i];
        let curr_key = &layer.keys[prop_index as usize];
        if curr_key.eq(key) {
            let value_index = tags[i + 1];
            let curr_value = &layer.values[value_index as usize];
            let m = values.len();
            let mut j: usize = 0;
            while j < m
                invariant
                    0 <= j <= m,
                    m == values@.len(),
                    tags_wf(layer.keys@, layer.values@, tags@),
                    0 <= i as int + 1 < tags@.len(),
                    i % 2 == 0,
                    value_index == tags@[i as int + 1],
                    (value_index as int) < layer.values@.len(),
                    (tags@[i as int] as int) < layer.keys@.len(),
                    *curr_value == layer.values@[value_index as int],
                    (layer.keys@[tags@[i as int] as int])@ == key@,
                    forall|jj: int|
                        0 <= jj < j ==> !(layer.values@[tags@[i as int + 1] as int]@ == (
                        #[trigger] values@[jj])@),
                decreases m - j,
            {
                if curr_value.eq(&values[j]) {
                    proof {
                        let w = i as int / 2;
                        assert(0 <= 2 * w < tags@.len() && (layer.keys@[tags@[2 * w] as int])@
                            == key@ && layer.values@[tags@[2 * w + 1] as int]@ == (values@[
                        j as int])@);
                    }
                    return true;
                }
                j += 1;
            }
        }
        i += 2;
    }
    proof {
        assert forall|k: int, j: int|
            0 <= 2 * k < tags@.len() && 0 <= j < values@.len() implies !((
        #[trigger] layer.keys@[tags@[2 * k] as int])@ == key@ && layer.values@[tags@[2 * k
            + 1] as int]@ == (#[trigger] values@[j])@) by {}
    }
    false
}

/// Finds the value slot of the first tag pair carrying the given key:
/// the lookup step of reading a feature's numeric or string attribute.
/// The attribute's payload itself lives in the layer's value table of
/// the layer above, which indexes it with the answer.
pub fn find_key_value_index(layer: &LayerTags, tags: &Vec<u32>, key: &String) -> (r: Option<u32>)
    requires
        tags_wf(layer.keys@, layer.values@, tags@),
    ensures
        match r {
            Some(v) => exists|i: int|
                {
                    &&& 0 <= 2 * i < tags@.len()
                    &&& (#[trigger] layer.keys@[tags@[2 * i] as int])@ == key@
                    &&& v == tags@[2 * i + 1]
                    &&& forall|k: int|
                        0 <= k < i ==> (#[trigger] layer.keys@[tags@[2 * k] as int])@ != key@
                },
            None => forall|i: int|
                0 <= 2 * i < tags@.len() ==> (#[trigger] layer.keys@[tags@[2 * i] as int])@
                    != key@,
        },
{
    let n = tags.len();
    let mut i: usize = 0;
    while i < n
        invariant
            0 <= i <= n,
            i % 2 == 0,
            n == tags@.len(),
            tags_wf(layer.keys@, layer.values@, tags@),
            forall|k: int|
                0 <= 2 * k < i ==> (#[trigger] layer.keys@[tags@[2 * k] as int])@ != key@,
        decreases n - i,
    {
        proof {
            let w = i as int / 2;
            assert(2 * w == i as int);
            assert(0 <= 2 * w < tags@.len());
            assert((tags@[2 * w] as int) < layer.keys@.len());
            assert((tags@[2 * w + 1] as int) < layer.values@.len());
            assert(i as int + 1 < n as int);
        }
        let prop_index = tags[i];
        let curr_key = &layer.keys[prop_index as usize];
        if curr_key.eq(key) {
            let v = tags[i + 1];
            proof {
                let w = i as int / 2;
                assert(0 <= 2 * w < tags@.len() && (layer.keys@[tags@[2 * w] as int])@ == key@
                    && v == tags@[2 * w + 1]);
            }
            return Some(v);
        }
        i += 2;
    }
    proof {
        assert forall|k: int| 0 <= 2 * k < tags@.len() implies (
        #[trigger] layer.keys@[tags@[2 * k] as int])@ != key@ by {}
    }
    None
}

} // verus!
