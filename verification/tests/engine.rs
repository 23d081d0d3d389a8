use ml_engine::model::{
    FieldType, FieldValue, FormData, PredictorError, CONFIDENCE_SCORE_HUNDREDTHS,
};
use ml_engine::predictor::FormPredictor;

fn record(user_id: &str, timestamp: &str, fields: Vec<(&str, FieldType, &str)>) -> FormData {
    FormData {
        user_id: user_id.to_string(),
        timestamp: timestamp.to_string(),
        fields: fields
            .into_iter()
            .map(|(field_id, field_type, value)| FieldValue {
                field_id: field_id.to_string(),
                field_type,
                value: value.to_string(),
            })
            .collect(),
    }
}

fn email_record(user_id: &str, value: &str) -> FormData {
    record(user_id, "2024-01-01T00:00:00Z", vec![("email", FieldType::Text, value)])
}

#[test]
fn train_is_idempotent() {
    let mut p = FormPredictor::new();
    p.add_training_data(email_record("u1", "a@x.com"));
    assert_eq!(p.train_model(), Ok(()));
    let stats_first = p.get_stats();
    assert_eq!(p.train_model(), Ok(()));
    let stats_second = p.get_stats();
    assert_eq!(stats_first, "{\"training_data_count\": 1, \"model_trained\": true}");
    assert_eq!(stats_first, stats_second);
}

#[test]
fn train_on_empty_store_fails() {
    let mut p = FormPredictor::new();
    assert_eq!(p.train_model(), Err(PredictorError::EmptyDataError));
    assert_eq!(
        p.train_model().unwrap_err().message(),
        "No training data available"
    );
    assert_eq!(
        p.get_stats(),
        "{\"training_data_count\": 0, \"model_trained\": false}"
    );
}

#[test]
fn predict_before_train_fails() {
    let mut p = FormPredictor::new();
    p.add_training_data(email_record("u1", "a@x.com"));
    assert_eq!(
        p.predict("u1", "email", ""),
        Err(PredictorError::NotTrainedError)
    );
    assert_eq!(
        p.predict("someone-else", "other-field", "context"),
        Err(PredictorError::NotTrainedError)
    );
    assert_eq!(
        p.predict("", "", "").unwrap_err().message(),
        "Model not trained yet"
    );
}

#[test]
fn dedup_and_bound() {
    let mut p = FormPredictor::new();
    for value in ["a@x.com", "b@x.com", "a@x.com", "", "c@x.com", "d@x.com", "e@x.com"] {
        p.add_training_data(email_record("u1", value));
    }
    p.train_model().unwrap();
    let result = p.predict("u1", "email", "").unwrap();
    assert_eq!(result.field_id, "email");
    assert_eq!(
        result.candidates,
        vec!["a@x.com", "b@x.com", "c@x.com", "d@x.com", "e@x.com"]
    );
    assert_eq!(result.confidence_scores, vec![CONFIDENCE_SCORE_HUNDREDTHS; 5]);
}

#[test]
fn truncates_to_five_smallest() {
    let mut p = FormPredictor::new();
    for value in ["g", "c", "e", "a", "f", "b", "d"] {
        p.add_training_data(email_record("u1", value));
    }
    p.train_model().unwrap();
    let result = p.predict("u1", "email", "").unwrap();
    assert_eq!(result.candidates, vec!["a", "b", "c", "d", "e"]);
    assert_eq!(result.confidence_scores.len(), 5);
}

#[test]
fn duplicates_keep_one_score_each() {
    let mut p = FormPredictor::new();
    for value in ["same", "same", "same"] {
        p.add_training_data(email_record("u1", value));
    }
    p.train_model().unwrap();
    let result = p.predict("u1", "email", "").unwrap();
    assert_eq!(result.candidates, vec!["same"]);
    assert_eq!(result.confidence_scores, vec![CONFIDENCE_SCORE_HUNDREDTHS]);
}

#[test]
fn user_isolation() {
    let mut p = FormPredictor::new();
    p.add_training_data(email_record("u1", "secret-of-u1@x.com"));
    p.add_training_data(email_record("u2", "u2@x.com"));
    p.train_model().unwrap();
    let result = p.predict("u2", "email", "").unwrap();
    assert_eq!(result.candidates, vec!["u2@x.com"]);
    let result = p.predict("u1", "email", "").unwrap();
    assert_eq!(result.candidates, vec!["secret-of-u1@x.com"]);
}

#[test]
fn no_match_gives_empty_result() {
    let mut p = FormPredictor::new();
    p.add_training_data(email_record("u1", "a@x.com"));
    p.train_model().unwrap();
    let result = p.predict("u1", "phone", "").unwrap();
    assert_eq!(result.field_id, "phone");
    assert!(result.candidates.is_empty());
    assert!(result.confidence_scores.is_empty());
    let result = p.predict("unknown-user", "email", "").unwrap();
    assert!(result.candidates.is_empty());
    assert!(result.confidence_scores.is_empty());
}

#[test]
fn empty_values_are_excluded() {
    let mut p = FormPredictor::new();
    p.add_training_data(email_record("u1", ""));
    p.train_model().unwrap();
    let result = p.predict("u1", "email", "").unwrap();
    assert!(result.candidates.is_empty());
    assert!(result.confidence_scores.is_empty());
}

#[test]
fn stats_count_tracks_adds() {
    let mut p = FormPredictor::new();
    assert_eq!(
        p.get_stats(),
        "{\"training_data_count\": 0, \"model_trained\": false}"
    );
    for n in 1..=12 {
        p.add_training_data(email_record("u1", "a@x.com"));
        let expected = format!("{{\"training_data_count\": {}, \"model_trained\": false}}", n);
        assert_eq!(p.get_stats(), expected);
    }
    p.train_model().unwrap();
    assert_eq!(
        p.get_stats(),
        "{\"training_data_count\": 12, \"model_trained\": true}"
    );
}

#[test]
fn records_with_many_fields_are_scanned() {
    let mut p = FormPredictor::new();
    p.add_training_data(record(
        "u1",
        "t0",
        vec![
            ("name", FieldType::Text, "Ada"),
            ("email", FieldType::Text, "ada@x.com"),
            ("age", FieldType::Number, "36"),
        ],
    ));
    p.add_training_data(record(
        "u1",
        "t1",
        vec![
            ("email", FieldType::Text, "lovelace@x.com"),
            ("newsletter", FieldType::Checkbox, "yes"),
        ],
    ));
    p.train_model().unwrap();
    let result = p.predict("u1", "email", "").unwrap();
    assert_eq!(result.candidates, vec!["ada@x.com", "lovelace@x.com"]);
    let result = p.predict("u1", "age", "").unwrap();
    assert_eq!(result.candidates, vec!["36"]);
}

#[test]
fn field_type_tags_round_trip() {
    let all = [
        (FieldType::Text, "Text"),
        (FieldType::Number, "Number"),
        (FieldType::Select, "Select"),
        (FieldType::Checkbox, "Checkbox"),
        (FieldType::Password, "Password"),
    ];
    for (field_type, tag) in all {
        assert_eq!(field_type.tag(), tag);
        assert_eq!(FieldType::from_tag(tag), Some(field_type));
    }
    assert_eq!(FieldType::from_tag("Email"), None);
    assert_eq!(FieldType::from_tag("text"), None);
    assert_eq!(FieldType::from_tag(""), None);
}

#[test]
fn error_messages() {
    assert_eq!(
        PredictorError::EmptyDataError.message(),
        "No training data available"
    );
    assert_eq!(
        PredictorError::NotTrainedError.message(),
        "Model not trained yet"
    );
    assert_eq!(
        PredictorError::DecodeError { detail: "missing field `user_id`".to_string() }.message(),
        "Failed to parse training data: missing field `user_id`"
    );
    assert_eq!(
        PredictorError::EncodeError { detail: "oops".to_string() }.message(),
        "Serialization error: oops"
    );
}

#[test]
fn candidates_sort_by_codepoint() {
    let mut p = FormPredictor::new();
    for value in ["b", "B", "a", "~", "0", "é", "A"] {
        p.add_training_data(email_record("u1", value));
    }
    p.train_model().unwrap();
    let result = p.predict("u1", "email", "").unwrap();
    assert_eq!(result.candidates, vec!["0", "A", "B", "a", "b"]);
}

#[test]
fn context_is_not_consulted() {
    let mut p = FormPredictor::new();
    p.add_training_data(email_record("u1", "a@x.com"));
    p.train_model().unwrap();
    let with_empty = p.predict("u1", "email", "").unwrap();
    let with_context = p.predict("u1", "email", "{\"page\": \"checkout\"}").unwrap();
    assert_eq!(with_empty, with_context);
}

#[test]
fn failed_train_leaves_store_usable() {
    let mut p = FormPredictor::new();
    assert!(p.train_model().is_err());
    p.add_training_data(email_record("u1", "a@x.com"));
    assert_eq!(p.train_model(), Ok(()));
    let result = p.predict("u1", "email", "").unwrap();
    assert_eq!(result.candidates, vec!["a@x.com"]);
}
