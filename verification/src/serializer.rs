use vstd::prelude::*;
use vstd::string::StringExecFns;

use crate::mapping::{spec_map, MapError, SpecMapError};
use crate::profile::{ProfileV2CompositionMapping, SpecCompositionMapping};
use crate::value::{
    spec_entries_contains_key, spec_entries_get, spec_entries_insert, Record, SpecValue, Value,
};

verus! {

broadcast use crate::value::lemma_value_view;

/// One target's finished entry: its mapped record with the gating key
/// merged in, or the mapping's error.
pub open spec fn spec_target_entry(
    m: SpecCompositionMapping,
    source: SpecValue,
    exclude: bool,
) -> Result<SpecValue, SpecMapError> {
    match spec_map(m.items, source, exclude) {
        Err(e) => Err(e),
        Ok(v) => {
            let d = v->Obj_0;
            Ok(
                SpecValue::Obj(
                    match m.enabled_checkbox_name {
                        Some(g) => spec_entries_insert(d, "__APPLY_CHECKBOX"@, SpecValue::Str(g)),
                        None => d,
                    },
                ),
            )
        },
    }
}

/// The targets folded into the envelope, in order; the first failure aborts.
pub open spec fn spec_serialize_fold(
    ms: Seq<SpecCompositionMapping>,
    source: SpecValue,
    exclude: bool,
    env: Seq<(Seq<char>, SpecValue)>,
) -> Result<Seq<(Seq<char>, SpecValue)>, SpecMapError>
    decreases ms.len(),
{
    if ms.len() == 0 {
        Ok(env)
    } else {
        match spec_target_entry(ms[0], source, exclude) {
            Err(e) => Err(e),
            Ok(tv) => spec_serialize_fold(
                ms.drop_first(),
                source,
                exclude,
                spec_entries_insert(env, ms[0].subcomp_name, tv),
            ),
        }
    }
}

/// What serializing the targets yields: an envelope holding the optional
/// shared timestamp and one keyed entry per target.
pub open spec fn spec_serialize(
    ms: Seq<SpecCompositionMapping>,
    source: SpecValue,
    exclude: bool,
    timestamp: Option<int>,
) -> Result<Seq<(Seq<char>, SpecValue)>, SpecMapError> {
    let env0: Seq<(Seq<char>, SpecValue)> = match timestamp {
        Some(t) => seq![("__TIMESTAMP"@, SpecValue::Int(t))],
        None => Seq::empty(),
    };
    spec_serialize_fold(ms, source, exclude, env0)
}

/// The views of the given targets.
pub open spec fn spec_targets_of(s: Seq<ProfileV2CompositionMapping>) -> Seq<
    SpecCompositionMapping,
> {
    s.map_values(|m: ProfileV2CompositionMapping| m@)
}

/// Serializes every target against the same source record into one keyed
/// envelope, exactly as `spec_serialize` describes. A supplied timestamp is
/// stored under `"__TIMESTAMP"`; each target's output is keyed by its
/// sub-composition name, with its gating key merged in when configured.
pub fn serialize_mappings(
    mappings: &Vec<ProfileV2CompositionMapping>,
    source: &Value,
    exclude_incomplete_data: bool,
    timestamp: Option<i64>,
) -> (r: Result<Value, MapError>)
    ensures
        match r {
            Ok(v) => (spec_serialize(
                spec_targets_of(mappings@),
                source@,
                exclude_incomplete_data,
                match timestamp {
                    Some(t) => Some(t as int),
                    None => None,
                },
            ) matches Ok(env) && v@ == SpecValue::Obj(env)),
            Err(e) => spec_serialize(
                spec_targets_of(mappings@),
                source@,
                exclude_incomplete_data,
                match timestamp {
                    Some(t) => Some(t as int),
                    None => None,
                },
            ) == Err::<Seq<(Seq<char>, SpecValue)>, _>(e@),
        },
{
    let ghost ms = spec_targets_of(mappings@);
    let ghost ts: Option<int> = match timestamp {
        Some(t) => Some(t as int),
        None => None,
    };
    let mut env = Record::new();
    match timestamp {
        Some(t) => {
            let _prev = env.insert(String::from_str("__TIMESTAMP"), Value::Number(t));
            proof {
                assert(env@ =~= seq![("__TIMESTAMP"@, SpecValue::Int(t as int))]);
            }
        },
        None => {},
    }
    let ghost env0 = env@;
    let n = mappings.len();
    let mut i: usize = 0;
    proof {
        assert(ms.skip(0) =~= ms);
    }
    while i < n
        invariant
            ms == spec_targets_of(mappings@),
            n == mappings@.len(),
            ms.len() == n,
            i <= n,
            ts == (match timestamp {
                Some(t) => Some(t as int),
                None => None::<int>,
            }),
            spec_serialize(ms, source@, exclude_incomplete_data, ts) == spec_serialize_fold(
                ms,
                source@,
                exclude_incomplete_data,
                env0,
            ),
            spec_serialize_fold(ms, source@, exclude_incomplete_data, env0)
                == spec_serialize_fold(
                ms.skip(i as int),
                source@,
                exclude_incomplete_data,
                env@,
            ),
        decreases n - i,
    {
        proof {
            assert(ms.skip(i as int)[0] == ms[i as int]);
            assert(ms.skip(i as int).drop_first() =~= ms.skip(i as int + 1));
            assert(ms[i as int] == mappings@[i as int]@);
        }
        let m = &mappings[i];
        match m.mapping.map(source, exclude_incomplete_data) {
            Err(e) => {
                return Err(e);
            },
            Ok(mapped) => match mapped {
                Value::Object(mut rec) => {
                    match &m.enabled_checkbox_name {
                        Some(g) => {
                            let _prev = rec.insert(
                                String::from_str("__APPLY_CHECKBOX"),
                                Value::Str(g.clone()),
                            );
                        },
                        None => {},
                    }
                    let _prev = env.insert(m.subcomp_name.clone(), Value::Object(rec));
                },
                _ => {
                    proof {
                        assert(false);
                    }
                    return Err(MapError::SourceNotMap);
                },
            },
        }
        i += 1;
    }
    proof {
        assert(ms.skip(n as int) =~= Seq::<SpecCompositionMapping>::empty());
    }
    Ok(Value::Object(env))
}

// ----- laws of the composition serializer -----

proof fn lemma_serialize_fold_populates(
    ms: Seq<SpecCompositionMapping>,
    source: SpecValue,
    exclude: bool,
    env: Seq<(Seq<char>, SpecValue)>,
)
    requires
        forall|i: int|
            0 <= i < ms.len() ==> (#[trigger] spec_target_entry(ms[i], source, exclude)) is Ok,
        forall|i: int, j: int|
            0 <= i < j < ms.len() ==> ms[i].subcomp_name != ms[j].subcomp_name,
        forall|i: int|
            0 <= i < ms.len() ==> !spec_entries_contains_key(env, #[trigger] ms[i].subcomp_name),
    ensures
        spec_serialize_fold(ms, source, exclude, env) is Ok,
        spec_serialize_fold(ms, source, exclude, env)->Ok_0.len() == env.len() + ms.len(),
        forall|i: int|
            0 <= i < ms.len() ==> spec_entries_get(
                spec_serialize_fold(ms, source, exclude, env)->Ok_0,
                #[trigger] ms[i].subcomp_name,
            ) == Some(spec_target_entry(ms[i], source, exclude)->Ok_0),
        forall|k: Seq<char>|
            (forall|i: int| 0 <= i < ms.len() ==> ms[i].subcomp_name != k)
                ==> #[trigger] spec_entries_get(spec_serialize_fold(ms, source, exclude, env)->Ok_0, k)
                == spec_entries_get(env, k),
    decreases ms.len(),
{
    if ms.len() > 0 {
        let m = ms[0];
        let rest = ms.drop_first();
        assert(forall|i: int| 0 <= i < rest.len() ==> rest[i] == ms[i + 1]);
        let tv = spec_target_entry(m, source, exclude)->Ok_0;
        let env2 = spec_entries_insert(env, m.subcomp_name, tv);
        crate::value::lemma_entries_get_contains(env, m.subcomp_name);
        crate::value::lemma_insert_len(env, m.subcomp_name, tv);
        crate::value::lemma_insert_get_same(env, m.subcomp_name, tv);
        assert forall|i: int| 0 <= i < rest.len() implies !spec_entries_contains_key(
            env2,
            #[trigger] rest[i].subcomp_name,
        ) by {
            assert(rest[i] == ms[i + 1]);
            crate::value::lemma_insert_contains(env, m.subcomp_name, tv, rest[i].subcomp_name);
        }
        lemma_serialize_fold_populates(rest, source, exclude, env2);
        let result = spec_serialize_fold(ms, source, exclude, env)->Ok_0;
        assert(result == spec_serialize_fold(rest, source, exclude, env2)->Ok_0);
        assert forall|i: int| 0 <= i < ms.len() implies spec_entries_get(
            result,
            #[trigger] ms[i].subcomp_name,
        ) == Some(spec_target_entry(ms[i], source, exclude)->Ok_0) by {
            if i == 0 {
                assert(forall|j: int| 0 <= j < rest.len() ==> rest[j].subcomp_name
                    != m.subcomp_name);
                assert(spec_entries_get(result, m.subcomp_name) == spec_entries_get(
                    env2,
                    m.subcomp_name,
                ));
            } else {
                assert(rest[i - 1] == ms[i]);
            }
        }
        assert forall|k: Seq<char>|
            (forall|i: int| 0 <= i < ms.len() ==> ms[i].subcomp_name != k) implies #[trigger]
        spec_entries_get(result, k) == spec_entries_get(env, k) by {
            assert(forall|i: int| 0 <= i < rest.len() ==> rest[i].subcomp_name != k);
            assert(m.subcomp_name != k);
            crate::value::lemma_insert_get_other(env, m.subcomp_name, tv, k);
        }
    }
}

/// An envelope built from the targets against one source record holds
/// exactly one keyed entry per target (plus the optional shared timestamp
/// under `"__TIMESTAMP"`), and each target's entry equals that target's
/// standalone mapping output with its gating key merged in.
pub proof fn lemma_envelope_round_trip(
    ms: Seq<SpecCompositionMapping>,
    source: SpecValue,
    exclude: bool,
    timestamp: Option<int>,
)
    requires
        forall|i: int|
            0 <= i < ms.len() ==> (#[trigger] spec_map(ms[i].items, source, exclude)) is Ok,
        forall|i: int, j: int|
            0 <= i < j < ms.len() ==> ms[i].subcomp_name != ms[j].subcomp_name,
        forall|i: int| 0 <= i < ms.len() ==> (#[trigger] ms[i].subcomp_name) != "__TIMESTAMP"@,
    ensures
        spec_serialize(ms, source, exclude, timestamp) is Ok,
        spec_serialize(ms, source, exclude, timestamp)->Ok_0.len() == ms.len() + (
        if timestamp is Some {
            1int
        } else {
            0int
        }),
        forall|i: int|
            0 <= i < ms.len() ==> spec_entries_get(
                spec_serialize(ms, source, exclude, timestamp)->Ok_0,
                #[trigger] ms[i].subcomp_name,
            ) == Some(spec_target_entry(ms[i], source, exclude)->Ok_0),
        timestamp matches Some(t) ==> spec_entries_get(
            spec_serialize(ms, source, exclude, timestamp)->Ok_0,
            "__TIMESTAMP"@,
        ) == Some(SpecValue::Int(t)),
{
    let env0: Seq<(Seq<char>, SpecValue)> = match timestamp {
        Some(t) => seq![("__TIMESTAMP"@, SpecValue::Int(t))],
        None => Seq::empty(),
    };
    assert forall|i: int| 0 <= i < ms.len() implies (#[trigger] spec_target_entry(
        ms[i],
        source,
        exclude,
    )) is Ok by {
        assert(spec_map(ms[i].items, source, exclude) is Ok);
    }
    assert forall|i: int| 0 <= i < ms.len() implies !spec_entries_contains_key(
        env0,
        #[trigger] ms[i].subcomp_name,
    ) by {
        if spec_entries_contains_key(env0, ms[i].subcomp_name) {
            let j = choose|j: int|
                0 <= j < env0.len() && env0[j].0 == ms[i].subcomp_name;
            assert(env0[j].0 == "__TIMESTAMP"@);
        }
    }
    lemma_serialize_fold_populates(ms, source, exclude, env0);
    if timestamp is Some {
        let result = spec_serialize(ms, source, exclude, timestamp)->Ok_0;
        assert(spec_entries_get(result, "__TIMESTAMP"@) == spec_entries_get(env0, "__TIMESTAMP"@));
        assert(spec_entries_get(env0, "__TIMESTAMP"@) == Some(
            SpecValue::Int(timestamp->0),
        ));
    }
}

} // verus!
