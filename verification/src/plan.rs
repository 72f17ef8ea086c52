//! The parameters of a run, and the plan that they compile to before any
//! file or store is touched.

use vstd::prelude::*;
use vstd::string::*;
use crate::error::{ConfigError, ConfigErrorView};
use crate::filter::Filter;
use crate::rules::{
    all_columns_valid, build_static_filter, column_fault, compile_fill_rules,
    compile_match_rules, fill_columns, header_boundary, header_boundary_of, is_filler_of,
    is_matcher_of, match_columns, static_filter, FillRule, Filler, MatchRule, Matcher,
    StaticFilter,
};

verus! {

/// Everything that one run is started with.
#[derive(Clone, Debug)]
pub struct RunParams {
    /// Where the store is reached.
    pub uri: String,
    /// The database.
    pub db_name: String,
    /// The collection that rows are matched against.
    pub collection_name: String,
    /// The workbook that is read.
    pub input_path: String,
    /// The workbook that is written.
    pub output_path: String,
    /// The match rules, in order.
    pub match_rules: Vec<MatchRule>,
    /// The conditions that every query carries, in order.
    pub static_filters: Vec<StaticFilter>,
    /// The fill rules, in order.
    pub fill_rules: Vec<FillRule>,
}

impl Default for RunParams {
    /// A store on this machine, no names, no rules.
    fn default() -> (r: RunParams)
        ensures
            r.uri@ == "mongodb://localhost:27017"@,
            r.db_name@.len() == 0,
            r.collection_name@.len() == 0,
            r.input_path@.len() == 0,
            r.output_path@ == "resultado.xlsx"@,
            r.match_rules@.len() == 0,
            r.static_filters@.len() == 0,
            r.fill_rules@.len() == 0,
    {
        RunParams {
            uri: "mongodb://localhost:27017".to_owned(),
            db_name: String::new(),
            collection_name: String::new(),
            input_path: String::new(),
            output_path: "resultado.xlsx".to_owned(),
            match_rules: Vec::new(),
            static_filters: Vec::new(),
            fill_rules: Vec::new(),
        }
    }
}

/// What the rules of a run compile to.
#[derive(Debug)]
pub struct Plan {
    /// The match rules, with their columns as indices.
    pub matchers: Vec<Matcher>,
    /// The fill rules, with their columns as indices.
    pub fillers: Vec<Filler>,
    /// The conditions that every query carries.
    pub base: Filter,
    /// The header boundary: the last row, counted from zero, that is never matched.
    pub boundary: usize,
}

/// The plan is what the parameters compile to.
pub open spec fn is_plan_of(plan: Plan, params: RunParams) -> bool {
    &&& plan.matchers@.len() == params.match_rules@.len()
    &&& forall|i: int|
        0 <= i < params.match_rules@.len() ==> is_matcher_of(
            #[trigger] plan.matchers@[i],
            params.match_rules@[i],
        )
    &&& plan.fillers@.len() == params.fill_rules@.len()
    &&& forall|i: int|
        0 <= i < params.fill_rules@.len() ==> is_filler_of(
            #[trigger] plan.fillers@[i],
            params.fill_rules@[i],
        )
    &&& plan.base@ == static_filter(params.static_filters@)
    &&& plan.boundary == header_boundary_of(params.match_rules@)
}

/// The parameters hold the error: the first fault that compiling meets. The
/// names come first, the database before the collection, then the columns of
/// the match rules, then those of the fill rules.
pub open spec fn is_fault_of(error: ConfigErrorView, params: RunParams) -> bool {
    if params.db_name@.len() == 0 {
        error == ConfigErrorView::MissingDatabase
    } else if params.collection_name@.len() == 0 {
        error == ConfigErrorView::MissingCollection
    } else if !all_columns_valid(match_columns(params.match_rules@)) {
        column_fault(match_columns(params.match_rules@), error)
    } else {
        &&& !all_columns_valid(fill_columns(params.fill_rules@))
        &&& column_fault(fill_columns(params.fill_rules@), error)
    }
}

/// The parameters compile: both names are there and every column is valid.
pub open spec fn is_valid(params: RunParams) -> bool {
    &&& params.db_name@.len() > 0
    &&& params.collection_name@.len() > 0
    &&& all_columns_valid(match_columns(params.match_rules@))
    &&& all_columns_valid(fill_columns(params.fill_rules@))
}

/// Checks the names of the database and of the collection.
pub fn check_names(db_name: &str, collection_name: &str) -> (r: Result<(), ConfigError>)
    ensures
        r is Ok <==> db_name@.len() > 0 && collection_name@.len() > 0,
        r matches Err(e) ==> e@ == if db_name@.len() == 0 {
            ConfigErrorView::MissingDatabase
        } else {
            ConfigErrorView::MissingCollection
        },
{
    if db_name.is_empty() {
        Err(ConfigError::MissingDatabase)
    } else if collection_name.is_empty() {
        Err(ConfigError::MissingCollection)
    } else {
        Ok(())
    }
}

/// Compiles the parameters of a run, and fails at the first fault.
pub fn compile(params: &RunParams) -> (r: Result<Plan, ConfigError>)
    ensures
        is_valid(*params) <==> r is Ok,
        r matches Ok(plan) ==> is_plan_of(plan, *params),
        r matches Err(e) ==> is_fault_of(e@, *params),
{
    match check_names(params.db_name.as_str(), params.collection_name.as_str()) {
        Err(e) => {
            return Err(e);
        },
        Ok(_) => {},
    }
    let matchers = match compile_match_rules(&params.match_rules) {
        Ok(matchers) => matchers,
        Err(e) => {
            return Err(e);
        },
    };
    let fillers = match compile_fill_rules(&params.fill_rules) {
        Ok(fillers) => fillers,
        Err(e) => {
            return Err(e);
        },
    };
    let base = build_static_filter(&params.static_filters);
    let boundary = header_boundary(&params.match_rules);
    Ok(Plan { matchers, fillers, base, boundary })
}

} // verus!
