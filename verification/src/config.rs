use crate::selection::SelectionState;
use vstd::prelude::*;

verus! {

/// The persisted record of a selection: its six indices, in dimension order.
pub open spec fn record_model(st: SelectionState) -> Seq<i32> {
    st.indices@
}

/// What a persisted record yields on reload: its first six integers, or
/// nothing when it is too short to cover every dimension.
pub open spec fn state_of_record(r: Seq<i32>) -> Option<Seq<i32>> {
    if r.len() >= 6 {
        Some(r.take(6))
    } else {
        None
    }
}

/// Turns the selection into the record that is persisted at shutdown.
pub fn selection_to_record(st: &SelectionState) -> (r: Vec<i32>)
    requires
        st.wf(),
    ensures
        r@ == record_model(*st),
{
    let mut r: Vec<i32> = Vec::new();
    let n = st.indices.len();
    let mut i: usize = 0;
    while i < n
        invariant
            0 <= i <= n,
            n == st.indices@.len(),
            r@ == st.indices@.take(i as int),
        decreases n - i,
    {
        r.push(st.indices[i]);
        proof {
            assert(st.indices@.take(i + 1) =~= st.indices@.take(i as int).push(
                st.indices@[i as int],
            ));
        }
        i = i + 1;
    }
    proof {
        assert(st.indices@.take(n as int) =~= st.indices@);
    }
    r
}

/// Rebuilds the selection from a persisted record; a record too short to
/// cover every dimension is rejected as malformed.
pub fn selection_from_record(rec: &Vec<i32>) -> (r: Option<SelectionState>)
    ensures
        r is Some <==> state_of_record(rec@) is Some,
        r is Some ==> r.unwrap().wf() && r.unwrap().indices@ == state_of_record(rec@).unwrap(),
{
    if rec.len() < 6 {
        return None;
    }
    let mut v: Vec<i32> = Vec::new();
    let mut i: usize = 0;
    while i < 6
        invariant
            0 <= i <= 6,
            rec@.len() >= 6,
            v@ == rec@.take(i as int),
        decreases 6 - i,
    {
        v.push(rec[i]);
        proof {
            assert(rec@.take(i + 1) =~= rec@.take(i as int).push(rec@[i as int]));
        }
        i = i + 1;
    }
    Some(SelectionState { indices: v })
}

/// Round trip: persisting a selection and reloading it reproduces the
/// identical six-integer vector.
pub proof fn lemma_config_round_trip(st: SelectionState)
    requires
        st.wf(),
    ensures
        state_of_record(record_model(st)) == Some(st.indices@),
{
    assert(st.indices@.take(6) =~= st.indices@);
}

} // verus!
