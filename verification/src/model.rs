//! The data model: observed form submissions, prediction results, and
//! the engine's error taxonomy, each with a mathematical view.

use vstd::prelude::*;
use crate::strings::str_eq;

verus! {

/// The closed set of form-field kinds. The tag is carried through the
/// engine but does not currently alter ranking.
#[derive(Clone, Copy, Debug, PartialEq, Eq, Structural)]
pub enum FieldType {
    Text,
    Number,
    Select,
    Checkbox,
    Password,
}

/// The tag under which each variant appears in an encoded record.
pub open spec fn spec_field_type_tag(t: FieldType) -> Seq<char> {
    match t {
        FieldType::Text => "Text"@,
        FieldType::Number => "Number"@,
        FieldType::Select => "Select"@,
        FieldType::Checkbox => "Checkbox"@,
        FieldType::Password => "Password"@,
    }
}

/// The variant a tag names, if any: the tag set is closed, and every
/// other tag is rejected.
pub open spec fn spec_field_type_from_tag(tag: Seq<char>) -> Option<FieldType> {
    if tag == "Text"@ {
        Some(FieldType::Text)
    } else if tag == "Number"@ {
        Some(FieldType::Number)
    } else if tag == "Select"@ {
        Some(FieldType::Select)
    } else if tag == "Checkbox"@ {
        Some(FieldType::Checkbox)
    } else if tag == "Password"@ {
        Some(FieldType::Password)
    } else {
        None
    }
}

impl FieldType {
    pub fn tag(&self) -> (r: &'static str)
        ensures
            r@ == spec_field_type_tag(*self),
    {
        match self {
            FieldType::Text => "Text",
            FieldType::Number => "Number",
            FieldType::Select => "Select",
            FieldType::Checkbox => "Checkbox",
            FieldType::Password => "Password",
        }
    }

    /// Decodes a tag; tags outside the closed set are rejected.
    pub fn from_tag(tag: &str) -> (r: Option<FieldType>)
        ensures
            r == spec_field_type_from_tag(tag@),
    {
        if str_eq(tag, "Text") {
            Some(FieldType::Text)
        } else if str_eq(tag, "Number") {
            Some(FieldType::Number)
        } else if str_eq(tag, "Select") {
            Some(FieldType::Select)
        } else if str_eq(tag, "Checkbox") {
            Some(FieldType::Checkbox)
        } else if str_eq(tag, "Password") {
            Some(FieldType::Password)
        } else {
            None
        }
    }
}

/// One observed value for one field in one submission.
#[derive(Clone, Debug)]
pub struct FieldValue {
    pub field_id: String,
    pub field_type: FieldType,
    pub value: String,
}

pub struct FieldValueModel {
    pub field_id: Seq<char>,
    pub field_type: FieldType,
    pub value: Seq<char>,
}

impl View for FieldValue {
    type V = FieldValueModel;

    open spec fn view(&self) -> FieldValueModel {
        FieldValueModel {
            field_id: self.field_id@,
            field_type: self.field_type,
            value: self.value@,
        }
    }
}

/// One submission event: a user, a caller-supplied timestamp kept
/// verbatim, and the observed field values in submission order.
#[derive(Clone, Debug)]
pub struct FormData {
    pub user_id: String,
    pub timestamp: String,
    pub fields: Vec<FieldValue>,
}

pub struct FormDataModel {
    pub user_id: Seq<char>,
    pub timestamp: Seq<char>,
    pub fields: Seq<FieldValueModel>,
}

impl View for FormData {
    type V = FormDataModel;

    open spec fn view(&self) -> FormDataModel {
        FormDataModel {
            user_id: self.user_id@,
            timestamp: self.timestamp@,
            fields: self.fields@.map_values(|f: FieldValue| f@),
        }
    }
}

/// Every candidate is reported with this fixed confidence, stated in
/// hundredths (80 stands for 0.8).
pub const CONFIDENCE_SCORE_HUNDREDTHS: u64 = 80;

/// The ranked answer to a predict call: distinct non-empty values in
/// lexicographic order, at most five, one score per candidate.
#[derive(Clone, Debug, PartialEq, Eq)]
pub struct PredictionResult {
    pub field_id: String,
    pub candidates: Vec<String>,
    pub confidence_scores: Vec<u64>,
}

pub struct PredictionResultModel {
    pub field_id: Seq<char>,
    pub candidates: Seq<Seq<char>>,
    pub confidence_scores: Seq<u64>,
}

/// The character sequences of a sequence of strings.
pub open spec fn views_of(strs: Seq<String>) -> Seq<Seq<char>> {
    strs.map_values(|s: String| s@)
}

impl View for PredictionResult {
    type V = PredictionResultModel;

    open spec fn view(&self) -> PredictionResultModel {
        PredictionResultModel {
            field_id: self.field_id@,
            candidates: views_of(self.candidates@),
            confidence_scores: self.confidence_scores@,
        }
    }
}

/// What can go wrong; every variant is recoverable and is reported to
/// the caller with the store left unchanged.
#[derive(Clone, Debug, PartialEq, Eq)]
pub enum PredictorError {
    /// A record handed to the store could not be decoded.
    DecodeError { detail: String },
    /// Training was requested on an empty store.
    EmptyDataError,
    /// Prediction was requested before a successful training call.
    NotTrainedError,
    /// The engine's own output could not be encoded (defensive; a
    /// well-formed result should always encode).
    EncodeError { detail: String },
}

pub open spec fn spec_error_message(e: PredictorError) -> Seq<char> {
    match e {
        PredictorError::DecodeError { detail } => "Failed to parse training data: "@ + detail@,
        PredictorError::EmptyDataError => "No training data available"@,
        PredictorError::NotTrainedError => "Model not trained yet"@,
        PredictorError::EncodeError { detail } => "Serialization error: "@ + detail@,
    }
}

impl PredictorError {
    /// The human-readable diagnostic for this error.
    pub fn message(&self) -> (r: String)
        ensures
            r@ == spec_error_message(*self),
    {
        match self {
            PredictorError::DecodeError { detail } => String::from_str(
                "Failed to parse training data: ",
            ).concat(detail.as_str()),
            PredictorError::EmptyDataError => String::from_str("No training data available"),
            PredictorError::NotTrainedError => String::from_str("Model not trained yet"),
            PredictorError::EncodeError { detail } => String::from_str(
                "Serialization error: ",
            ).concat(detail.as_str()),
        }
    }
}

} // verus!
