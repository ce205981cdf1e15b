use crate::catalog::catalog_model_wf;
use crate::catalog::entries_model;
use crate::catalog::CatalogEntry;
use crate::catalog::CatalogModel;
use crate::catalog::EntryModel;
use crate::catalog::ProductCatalog;
use vstd::prelude::*;

verus! {

/// The current choice per dimension: one index into that dimension's current
/// option list, or -1 for a dimension with no choice made yet. The six
/// dimensions stand in fixed order: product type, product series, product,
/// operating system, language, package type.
#[derive(Debug)]
pub struct SelectionState {
    pub indices: Vec<i32>,
}

/// A selection cannot surface an index the option lists cannot serve, so a
/// programming error of that kind is reported, never acted on.
#[derive(Clone, Copy, Debug, PartialEq, Eq, Structural)]
pub enum SelectionError {
    UnresolvedSelection,
}

impl SelectionState {
    pub open spec fn wf(self) -> bool {
        self.indices@.len() == 6
    }

    /// The hard-coded startup default: second product type, first series and
    /// product, operating system and language unset, second package type.
    pub fn initial() -> (r: SelectionState)
        ensures
            r.wf(),
            r.indices@ == seq![1i32, 0i32, 0i32, -1i32, -1i32, 1i32],
    {
        let mut v: Vec<i32> = Vec::new();
        v.push(1);
        v.push(0);
        v.push(0);
        v.push(-1);
        v.push(-1);
        v.push(1);
        proof {
            assert(v@ =~= seq![1i32, 0i32, 0i32, -1i32, -1i32, 1i32]);
        }
        SelectionState { indices: v }
    }

    /// Writes the user's new choice at one dimension.
    pub fn set_index(&mut self, dim: usize, value: i32)
        requires
            old(self).wf(),
            dim < 6,
        ensures
            final(self).wf(),
            final(self).indices@ == old(self).indices@.update(dim as int, value),
    {
        self.indices[dim] = value;
    }

    /// Cascade reset: every dimension strictly below the changed one in the
    /// product hierarchy goes back to index 0.
    pub fn apply_cascade_reset(&mut self, dim: usize)
        requires
            old(self).wf(),
            dim == 0 || dim == 1,
        ensures
            final(self).wf(),
            dim == 0 ==> final(self).indices@ == old(self).indices@.update(1, 0i32).update(
                2,
                0i32,
            ),
            dim == 1 ==> final(self).indices@ == old(self).indices@.update(2, 0i32),
    {
        if dim == 0 {
            self.indices[1] = 0;
        }
        self.indices[2] = 0;
    }

    /// Startup seeding: a dimension whose option list is non-empty must show
    /// a real choice, so an unset index is promoted to 0.
    pub fn seed_dimension(&mut self, dim: usize, options_len: usize)
        requires
            old(self).wf(),
            dim < 6,
        ensures
            final(self).wf(),
            final(self).indices@ == (if options_len > 0 && old(self).indices@[dim as int] < 0 {
                old(self).indices@.update(dim as int, 0i32)
            } else {
                old(self).indices@
            }),
    {
        if options_len > 0 && self.indices[dim] < 0 {
            self.indices[dim] = 0;
        }
        proof {
            if !(options_len > 0 && old(self).indices@[dim as int] < 0) {
                assert(self.indices@ =~= old(self).indices@);
            }
        }
    }
}

/// The catalog tree and the three flat option tables, together the source of
/// every dimension's option list.
pub struct OptionTables {
    pub catalog: ProductCatalog,
    pub os_list: Vec<CatalogEntry>,
    pub languages: Vec<CatalogEntry>,
    pub package_types: Vec<CatalogEntry>,
}

impl OptionTables {
    pub open spec fn wf(self) -> bool {
        catalog_model_wf(self.catalog.model())
    }

    /// Whether the selection's type index (and, for the product dimension,
    /// its series index too) can be used to look up the option list of `dim`.
    pub open spec fn dim_reachable(self, s: Seq<i32>, dim: int) -> bool {
        let m = self.catalog.model();
        if dim == 1 || dim == 2 {
            0 <= s[0] < m.types.len() && (dim == 2 ==> 0 <= s[1] < m.series[s[0] as int].len())
        } else {
            true
        }
    }

    /// The option list visible at `dim`: the series and product lists are
    /// found by indexing the tree with the current type and series choices.
    pub open spec fn spec_options(self, s: Seq<i32>, dim: int) -> Seq<EntryModel> {
        let m = self.catalog.model();
        if dim == 0 {
            m.types
        } else if dim == 1 {
            m.series[s[0] as int]
        } else if dim == 2 {
            m.products[s[0] as int][s[1] as int]
        } else if dim == 3 {
            entries_model(self.os_list@)
        } else if dim == 4 {
            entries_model(self.languages@)
        } else {
            entries_model(self.package_types@)
        }
    }

    /// The option list currently applicable at `dim`.
    pub fn current_options<'a>(&'a self, st: &SelectionState, dim: usize) -> (r: &'a Vec<
        CatalogEntry,
    >)
        requires
            st.wf(),
            self.wf(),
            dim < 6,
            self.dim_reachable(st.indices@, dim as int),
        ensures
            entries_model(r@) == self.spec_options(st.indices@, dim as int),
    {
        if dim == 0 {
            &self.catalog.types
        } else if dim == 1 {
            let t = self.indices_type(st);
            &self.catalog.series[t]
        } else if dim == 2 {
            let t = self.indices_type(st);
            let s = st.indices[1] as usize;
            assert(self.catalog.model().products[t as int][s as int] == entries_model(
                self.catalog.products@[t as int]@[s as int]@,
            ));
            &self.catalog.products[t][s]
        } else if dim == 3 {
            &self.os_list
        } else if dim == 4 {
            &self.languages
        } else {
            &self.package_types
        }
    }

    fn indices_type(&self, st: &SelectionState) -> (t: usize)
        requires
            st.wf(),
            0 <= st.indices@[0] < self.catalog.model().types.len(),
        ensures
            t == st.indices@[0] as int,
            t < self.catalog.types@.len(),
    {
        st.indices[0] as usize
    }
}

/// The id of the selected entry of one option list; `UnresolvedSelection`
/// exactly when the index is unset or out of range.
pub fn resolved_id(options: &Vec<CatalogEntry>, idx: i32) -> (r: Result<String, SelectionError>)
    ensures
        r is Ok <==> 0 <= idx < options@.len(),
        r is Ok ==> r.unwrap()@ == options@[idx as int].id@,
{
    if idx >= 0 && (idx as usize) < options.len() {
        Ok(options[idx as usize].id.clone())
    } else {
        Err(SelectionError::UnresolvedSelection)
    }
}

/// The five ids a query is built from, resolved from the selection: series,
/// product, operating system, language and package type.
#[derive(Debug)]
pub struct ResolvedIds {
    pub psid: String,
    pub pfid: String,
    pub osid: String,
    pub langid: String,
    pub typeid: String,
}

/// Whether every dimension a query needs is resolvable under selection `s`.
pub open spec fn query_resolvable(tables: OptionTables, s: Seq<i32>) -> bool {
    let m = tables.catalog.model();
    &&& 0 <= s[0] < m.types.len()
    &&& 0 <= s[1] < m.series[s[0] as int].len()
    &&& 0 <= s[2] < m.products[s[0] as int][s[1] as int].len()
    &&& 0 <= s[3] < tables.os_list@.len()
    &&& 0 <= s[4] < tables.languages@.len()
    &&& 0 <= s[5] < tables.package_types@.len()
}

/// Resolves the five query ids from the current selection, exactly when
/// every dimension below the product type carries a valid index.
pub fn resolve_query_ids(tables: &OptionTables, st: &SelectionState) -> (r: Result<
    ResolvedIds,
    SelectionError,
>)
    requires
        st.wf(),
        tables.wf(),
    ensures
        r is Ok <==> query_resolvable(*tables, st.indices@),
        r is Ok ==> ({
            let s = st.indices@;
            let ids = r.unwrap();
            &&& ids.psid@ == tables.spec_options(s, 1)[s[1] as int].id
            &&& ids.pfid@ == tables.spec_options(s, 2)[s[2] as int].id
            &&& ids.osid@ == tables.spec_options(s, 3)[s[3] as int].id
            &&& ids.langid@ == tables.spec_options(s, 4)[s[4] as int].id
            &&& ids.typeid@ == tables.spec_options(s, 5)[s[5] as int].id
        }),
{
    let t = st.indices[0];
    if !(t >= 0 && (t as usize) < tables.catalog.types.len()) {
        return Err(SelectionError::UnresolvedSelection);
    }
    let series_options = tables.current_options(st, 1);
    let psid = match resolved_id(series_options, st.indices[1]) {
        Ok(id) => id,
        Err(e) => {
            return Err(e);
        },
    };
    let product_options = tables.current_options(st, 2);
    let pfid = match resolved_id(product_options, st.indices[2]) {
        Ok(id) => id,
        Err(e) => {
            return Err(e);
        },
    };
    let osid = match resolved_id(&tables.os_list, st.indices[3]) {
        Ok(id) => id,
        Err(e) => {
            return Err(e);
        },
    };
    let langid = match resolved_id(&tables.languages, st.indices[4]) {
        Ok(id) => id,
        Err(e) => {
            return Err(e);
        },
    };
    let typeid = match resolved_id(&tables.package_types, st.indices[5]) {
        Ok(id) => id,
        Err(e) => {
            return Err(e);
        },
    };
    Ok(ResolvedIds { psid, pfid, osid, langid, typeid })
}

/// Changing the product type, followed by its full cascade, leaves the
/// series and product indices pointing into the new option lists: never
/// stale, never out of range.
pub proof fn lemma_type_change_cascade_valid(m: CatalogModel, s: Seq<i32>, t: i32)
    requires
        catalog_model_wf(m),
        s.len() == 6,
        0 <= t < m.types.len(),
    ensures
        ({
            let s2 = s.update(0, t).update(1, 0i32).update(2, 0i32);
            &&& s2[0] == t
            &&& 0 <= s2[1] < m.series[s2[0] as int].len()
            &&& 0 <= s2[2] < m.products[s2[0] as int][s2[1] as int].len()
        }),
{
}

/// Changing the series resets the product index to a valid position in the
/// new product list and touches neither the type nor the series itself.
pub proof fn lemma_series_change_cascade(m: CatalogModel, s: Seq<i32>, v: i32)
    requires
        catalog_model_wf(m),
        s.len() == 6,
        0 <= s[0] < m.types.len(),
        0 <= v < m.series[s[0] as int].len(),
    ensures
        ({
            let s2 = s.update(1, v).update(2, 0i32);
            &&& s2[0] == s[0]
            &&& s2[1] == v
            &&& 0 <= s2[2] < m.products[s2[0] as int][s2[1] as int].len()
        }),
{
}

} // verus!
