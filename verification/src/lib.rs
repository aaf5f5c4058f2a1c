//! A verified model of the `SonicDeserialize` derive: attribute options,
//! the struct model with its accepted field names, and the expansion plan
//! from which the `serde::Deserialize` impl is written.

pub mod attr;
pub mod codegen;
pub mod laws;
pub mod meta;
pub mod model;
pub mod paths;
pub mod text;

use vstd::prelude::*;

use crate::attr::{PathVerdicts, res_view};
use crate::codegen::{Expansion, ExpansionView, expansion_spec};
use crate::model::{
    DeriveError, DeriveErrorView, DeriveInput, DeriveInputView, StructModel, StructModelView,
    builds_model, checked_fields, checks_input_texts, fields_ok_upto, is_field_error, model_of, shape_error,
};

verus! {

/// What expanding `input` gives, with the path check's verdicts `cvs` and `fvs`:
/// the refusal of the item's shape or attributes if any; else a plan exactly when
/// no field is refused, the plan of a model that describes the input, and
/// otherwise the first field's refusal.
pub open spec fn expands_to(
    input: DeriveInputView,
    cvs: PathVerdicts,
    fvs: Seq<PathVerdicts>,
    r: Result<ExpansionView, DeriveErrorView>,
) -> bool {
    match shape_error(input, cvs) {
        Some(e) => r == Err::<ExpansionView, DeriveErrorView>(e),
        None => {
            let fs = checked_fields(input, fvs);
            &&& (r is Ok <==> fields_ok_upto(fs, fs.len() as int))
            &&& (r matches Err(e) ==> is_field_error(fs, e))
            &&& (r matches Ok(x) ==> exists|m: StructModelView|
                m.wf() && model_of(input, cvs, fvs, m) && expansion_spec(m, x))
        },
    }
}

proof fn lemma_expands_to(
    input: DeriveInputView,
    cvs: PathVerdicts,
    fvs: Seq<PathVerdicts>,
    built: Result<StructModelView, DeriveErrorView>,
    r: Result<ExpansionView, DeriveErrorView>,
)
    requires
        builds_model(input, cvs, fvs, built),
        match built {
            Ok(m) => r matches Ok(x) && expansion_spec(m, x),
            Err(e) => r == Err::<ExpansionView, DeriveErrorView>(e),
        },
    ensures
        expands_to(input, cvs, fvs, r),
{
    if let Ok(m) = built {
        assert(m.wf() && model_of(input, cvs, fvs, m) && expansion_spec(m, r->Ok_0));
    }
}

/// The plan of the `Deserialize` impl for an item, or why the item is refused:
/// the model of the item, then the plan of that model. The path texts of the
/// options are checked by `syn`, whose verdicts are not stated: the result is the
/// expansion under some tables of checks made on those texts.
pub fn expand(input: DeriveInput) -> (r: Result<Expansion, DeriveError>)
    ensures
        exists|cvs: PathVerdicts, fvs: Seq<PathVerdicts>|
            checks_input_texts(input@, cvs, fvs) && expands_to(input@, cvs, fvs, res_view(r)),
{
    let ghost iv = input@;
    let built = StructModel::from_input(input);
    let ghost bv = res_view(built);
    let ghost (cvs, fvs) = choose|cvs: PathVerdicts, fvs: Seq<PathVerdicts>|
        checks_input_texts(iv, cvs, fvs) && builds_model(iv, cvs, fvs, bv);
    let r = match built {
        Ok(model) => Ok(crate::codegen::expand(&model)),
        Err(e) => Err(e),
    };
    proof {
        lemma_expands_to(iv, cvs, fvs, bv, res_view(r));
    }
    r
}

} // verus!
