use nv_driver_helper::catalog::load_flat_table;
use nv_driver_helper::catalog::load_product_catalog;
use nv_driver_helper::config::selection_from_record;
use nv_driver_helper::config::selection_to_record;
use nv_driver_helper::controller::handle_click;
use nv_driver_helper::controller::handle_refresh;
use nv_driver_helper::controller::Message;
use nv_driver_helper::selection::resolve_query_ids;
use nv_driver_helper::selection::resolved_id;
use nv_driver_helper::selection::OptionTables;
use nv_driver_helper::selection::SelectionError;
use nv_driver_helper::selection::SelectionState;

fn sample_tables() -> OptionTables {
    let mut s = String::from("pt,pst,pf,ptid,pstid,pfid\n");
    s.push_str("A,S1,P1,10,20,30\n");
    s.push_str("A,S1,P2,10,20,31\n");
    s.push_str("A,S2,P3,10,21,32\n");
    s.push_str("B,S3,P4,11,22,33\n");
    let catalog = load_product_catalog(&s).unwrap();
    let os_list = load_flat_table("osid,os\n57,Win10\n135,Win11\n").unwrap();
    let languages = load_flat_table("langid,lang\n1,English\n5,Deutsch\n").unwrap();
    let package_types = load_flat_table("typeid,typeval\n0,Standard\n1,DCH\n").unwrap();
    OptionTables { catalog, os_list, languages, package_types }
}

/// Runs the controller on one user change and every message it cascades,
/// exactly as the interactive loop would.
fn run_user_change(st: &mut SelectionState, dim: usize, value: i32) -> Vec<Message> {
    let mut queue = handle_click(st, dim, value);
    let mut repaints = Vec::new();
    while let Some(msg) = queue.pop() {
        match msg {
            Message::Refresh(d) => {
                let more = handle_refresh(st, d);
                queue.extend(more);
            }
            Message::Repaint(d) => repaints.push(Message::Repaint(d)),
            other => repaints.push(other),
        }
    }
    repaints
}

#[test]
fn type_change_resets_series_and_product() {
    let tables = sample_tables();
    let mut st = SelectionState::initial();
    // start at type A, series S2, product P3
    run_user_change(&mut st, 0, 0);
    run_user_change(&mut st, 1, 1);

    // switch to type B: series and product fall back to 0, valid in the new lists
    run_user_change(&mut st, 0, 1);
    assert_eq!(st.indices, vec![1, 0, 0, -1, -1, 1]);
    let t = st.indices[0] as usize;
    let s = st.indices[1] as usize;
    let p = st.indices[2] as usize;
    assert!(s < tables.catalog.series[t].len());
    assert!(p < tables.catalog.products[t][s].len());
}

#[test]
fn series_change_resets_product_only() {
    let tables = sample_tables();
    let mut st = SelectionState::initial();
    run_user_change(&mut st, 0, 0);
    // pick the second product of S1
    run_user_change(&mut st, 2, 1);
    assert_eq!(st.indices[2], 1);

    // switch to series S2: the product index resets, type and series stay
    run_user_change(&mut st, 1, 1);
    assert_eq!(st.indices[0], 0);
    assert_eq!(st.indices[1], 1);
    assert_eq!(st.indices[2], 0);
    let t = st.indices[0] as usize;
    let s = st.indices[1] as usize;
    assert!((st.indices[2] as usize) < tables.catalog.products[t][s].len());
}

#[test]
fn cascade_reset_zeroes_everything_below() {
    let mut st = SelectionState::initial();
    run_user_change(&mut st, 1, 1);
    run_user_change(&mut st, 2, 1);
    st.apply_cascade_reset(0);
    assert_eq!(st.indices[1], 0);
    assert_eq!(st.indices[2], 0);
    run_user_change(&mut st, 2, 1);
    st.apply_cascade_reset(1);
    assert_eq!(st.indices[2], 0);
}

#[test]
fn click_below_series_cascades_nothing() {
    let mut st = SelectionState::initial();
    let msgs = handle_click(&mut st, 3, 1);
    assert!(msgs.is_empty());
    assert_eq!(st.indices[3], 1);
}

#[test]
fn seed_promotes_unset_indices() {
    let mut st = SelectionState::initial();
    assert_eq!(st.indices[3], -1);
    st.seed_dimension(3, 2);
    assert_eq!(st.indices[3], 0);
    // an empty option list leaves the sentinel in place
    st.seed_dimension(4, 0);
    assert_eq!(st.indices[4], -1);
    // a set index is not touched
    st.seed_dimension(0, 2);
    assert_eq!(st.indices[0], 1);
}

#[test]
fn current_options_follow_the_tree() {
    let tables = sample_tables();
    let mut st = SelectionState::initial();
    run_user_change(&mut st, 0, 0);
    let series: Vec<&str> =
        tables.current_options(&st, 1).iter().map(|e| e.label.as_str()).collect();
    assert_eq!(series, vec!["S1", "S2"]);
    run_user_change(&mut st, 1, 1);
    let products: Vec<&str> =
        tables.current_options(&st, 2).iter().map(|e| e.label.as_str()).collect();
    assert_eq!(products, vec!["P3"]);
    let types: Vec<&str> =
        tables.current_options(&st, 0).iter().map(|e| e.label.as_str()).collect();
    assert_eq!(types, vec!["A", "B"]);
}

#[test]
fn resolved_id_picks_the_selected_entry() {
    let tables = sample_tables();
    assert_eq!(resolved_id(&tables.os_list, 1).unwrap(), "135");
    assert_eq!(
        resolved_id(&tables.os_list, -1).unwrap_err(),
        SelectionError::UnresolvedSelection
    );
    assert_eq!(
        resolved_id(&tables.os_list, 2).unwrap_err(),
        SelectionError::UnresolvedSelection
    );
}

#[test]
fn resolve_ids_for_full_selection() {
    let tables = sample_tables();
    let mut st = SelectionState::initial();
    run_user_change(&mut st, 0, 0);
    run_user_change(&mut st, 1, 1);
    run_user_change(&mut st, 3, 0);
    run_user_change(&mut st, 4, 1);
    run_user_change(&mut st, 5, 1);
    let ids = resolve_query_ids(&tables, &st).unwrap();
    assert_eq!(ids.psid, "21");
    assert_eq!(ids.pfid, "32");
    assert_eq!(ids.osid, "57");
    assert_eq!(ids.langid, "5");
    assert_eq!(ids.typeid, "1");
}

#[test]
fn resolve_ids_rejects_unset_dimension() {
    let tables = sample_tables();
    let st = SelectionState::initial();
    // the initial state leaves os and language unset
    let r = resolve_query_ids(&tables, &st);
    assert_eq!(r.unwrap_err(), SelectionError::UnresolvedSelection);
}

#[test]
fn config_round_trip() {
    let mut st = SelectionState::initial();
    run_user_change(&mut st, 3, 1);
    run_user_change(&mut st, 4, 0);
    let before = st.indices.clone();
    let record = selection_to_record(&st);
    let reloaded = selection_from_record(&record).unwrap();
    assert_eq!(reloaded.indices, before);
}

#[test]
fn short_record_is_rejected() {
    let record = vec![1, 0, 0];
    assert!(selection_from_record(&record).is_none());
}

#[test]
fn initial_state_matches_default_record() {
    let st = SelectionState::initial();
    assert_eq!(st.indices, vec![1, 0, 0, -1, -1, 1]);
}
