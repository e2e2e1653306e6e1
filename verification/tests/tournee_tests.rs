use colis_session::json::{parse, Json, Member};
use colis_session::tournee::{
    completed_round_message, extract_packages, read_package, token_header, tournee_request,
    tournee_url, Package, TourneeRequest, DEFAULT_TOURNEE_DATE,
};
use colis_session::validation::{
    failure_warning, method_label, summarize, unvalidated, AddressValidationSummary,
    ValidationMethod, ValidationOutcome,
};

fn record(metier: &str, id: &str, priority: &str) -> String {
    format!(
        "{{\"metier\": \"{}\", \"idArticle\": \"{}\", \"refExterneArticle\": \"REF-{}\", \
         \"nomDestinataire\": \"Mme Durand\", \
         \"LibelleVoieOrigineDestinataire\": \"12 RUE DE LA PAIX\", \
         \"codePostalOrigineDestinataire\": \"75002\", \
         \"LibelleLocaliteOrigineDestinataire\": \"PARIS\", \
         \"codeStatutArticle\": \"EN_COURS\", \"PreferenceLivraison\": \"Sonner\", \
         \"telephoneMobileDestinataire\": \"0600000000\", \"priorite\": {}}}",
        metier, id, id, priority
    )
}

fn expected(id: &str, priority: &str) -> Package {
    Package {
        id: id.to_string(),
        tracking_number: format!("REF-{}", id),
        recipient_name: "Mme Durand".to_string(),
        address: "12 RUE DE LA PAIX, 75002 PARIS".to_string(),
        status: "EN_COURS".to_string(),
        instructions: "Sonner".to_string(),
        phone: "0600000000".to_string(),
        priority: priority.to_string(),
    }
}

#[test]
fn parcels_are_read_in_the_order_of_the_records() {
    let answer = parse(&format!(
        "{{\"LstLieuArticle\": [{}, {}, {}]}}",
        record("COLIS", "A1", "3"),
        record("RELAIS", "B2", "1"),
        record("COLIS", "C3", "0")
    ))
    .expect("well-formed");
    assert_eq!(extract_packages(&answer), vec![expected("A1", "3"), expected("C3", "0")]);
}

#[test]
fn records_with_a_missing_or_mistyped_field_are_passed_over() {
    let no_phone = "{\"metier\": \"COLIS\", \"idArticle\": \"X\"}";
    let answer = parse(&format!(
        "{{\"LstLieuArticle\": [{}, {}, {}, {}, 17, {}]}}",
        no_phone,
        record("COLIS", "N1", "-1"),
        record("COLIS", "N2", "1.5"),
        record("COLIS", "N3", "\"2\""),
        record("COLIS", "OK", "18446744073709551615")
    ))
    .expect("well-formed");
    assert_eq!(extract_packages(&answer), vec![expected("OK", "18446744073709551615")]);
}

#[test]
fn an_answer_without_the_array_has_no_parcels() {
    assert_eq!(extract_packages(&parse("{}").expect("well-formed")), vec![]);
    assert_eq!(
        extract_packages(&parse("{\"LstLieuArticle\": {\"a\": 1}}").expect("well-formed")),
        vec![]
    );
    assert_eq!(extract_packages(&parse("[1, 2]").expect("well-formed")), vec![]);
    assert_eq!(
        extract_packages(&parse("{\"LstLieuArticle\": []}").expect("well-formed")),
        vec![]
    );
}

#[test]
fn one_record_is_read_alone() {
    let parcel = parse(&record("COLIS", "Z9", "42")).expect("well-formed");
    assert_eq!(read_package(&parcel), Some(expected("Z9", "42")));
    let other = parse(&record("colis", "Z9", "42")).expect("well-formed");
    assert_eq!(read_package(&other), None);
    assert_eq!(read_package(&Json::Null), None);
}

#[test]
fn numbers_in_a_tree_are_read_as_written() {
    assert_eq!(Json::Number("42".to_string()).as_u64(), Some(42));
    assert_eq!(Json::Number("0".to_string()).as_u64(), Some(0));
    assert_eq!(Json::Number("18446744073709551615".to_string()).as_u64(), Some(u64::MAX));
    assert_eq!(Json::Number("18446744073709551616".to_string()).as_u64(), None);
    assert_eq!(Json::Number("-3".to_string()).as_u64(), None);
    assert_eq!(Json::Number("1.0".to_string()).as_u64(), None);
    assert_eq!(Json::Number("".to_string()).as_u64(), None);
    assert_eq!(Json::Text("42".to_string()).as_u64(), None);
    let parsed = parse("[7, -7, 7.5, 1e3]").expect("well-formed");
    assert_eq!(parsed.at(0).and_then(|n| n.as_u64()), Some(7));
    assert_eq!(parsed.at(1).and_then(|n| n.as_u64()), None);
    assert_eq!(parsed.at(2).and_then(|n| n.as_u64()), None);
    assert_eq!(parsed.at(3).and_then(|n| n.as_u64()), None);
    assert_eq!(parsed.at(4), None);
}

#[test]
fn a_completed_round_is_reported_by_its_code() {
    let named =
        parse("{\"InfosTournee\": {\"codeTourneeDistribution\": \"T-77\"}}").expect("well-formed");
    assert_eq!(
        completed_round_message(&named),
        Some("Tournée T-77 completada - No hay paquetes pendientes".to_string())
    );
    let unnamed = parse("{\"InfosTournee\": {}}").expect("well-formed");
    assert_eq!(
        completed_round_message(&unnamed),
        Some("Tournée Desconocida completada - No hay paquetes pendientes".to_string())
    );
    assert_eq!(completed_round_message(&parse("{}").expect("well-formed")), None);
}

#[test]
fn the_request_names_the_operator_and_the_day() {
    assert_eq!(
        tournee_request("S1", "U1", Some("2025-01-20"), DEFAULT_TOURNEE_DATE),
        TourneeRequest { matricule: "S1_U1".to_string(), date_debut: "2025-01-20".to_string() }
    );
    assert_eq!(
        tournee_request("S1", "U1", None, DEFAULT_TOURNEE_DATE),
        TourneeRequest { matricule: "S1_U1".to_string(), date_debut: "2025-09-01".to_string() }
    );
    assert_eq!(
        tournee_url("https://t.example"),
        "https://t.example/WS-TourneeColis/api/getTourneeByMatriculeDistributeurDateDebut_POST"
    );
    assert_eq!(token_header("abc123"), "SsoHopps: abc123");
}

#[test]
fn outcomes_are_tallied_by_method() {
    let outcomes = vec![
        ValidationOutcome::Validated {
            method: ValidationMethod::Original,
            warnings: vec![],
        },
        ValidationOutcome::Validated {
            method: ValidationMethod::Cleaned,
            warnings: vec!["w1".to_string(), "w2".to_string()],
        },
        ValidationOutcome::Failed { reason: "no network".to_string() },
        ValidationOutcome::Validated {
            method: ValidationMethod::CompletedWithSector,
            warnings: vec![],
        },
        ValidationOutcome::Validated {
            method: ValidationMethod::PartialSearch,
            warnings: vec!["w3".to_string()],
        },
        ValidationOutcome::Validated {
            method: ValidationMethod::ManualRequired,
            warnings: vec![],
        },
        ValidationOutcome::Validated {
            method: ValidationMethod::Original,
            warnings: vec![],
        },
    ];
    assert_eq!(
        summarize(&outcomes),
        AddressValidationSummary {
            total_packages: 7,
            auto_validated: 2,
            cleaned_auto: 1,
            completed_auto: 1,
            partial_found: 1,
            requires_manual: 2,
            warnings: vec!["w1".to_string(), "w2".to_string(), "w3".to_string()],
        }
    );
}

#[test]
fn no_outcomes_give_an_empty_summary() {
    assert_eq!(summarize(&vec![]), unvalidated(0));
}

#[test]
fn without_validation_every_parcel_requires_a_person() {
    assert_eq!(
        unvalidated(5),
        AddressValidationSummary {
            total_packages: 5,
            auto_validated: 0,
            cleaned_auto: 0,
            completed_auto: 0,
            partial_found: 0,
            requires_manual: 5,
            warnings: vec![],
        }
    );
}

#[test]
fn methods_and_failures_are_labelled() {
    assert_eq!(method_label(ValidationMethod::Original), "Original");
    assert_eq!(method_label(ValidationMethod::Cleaned), "Cleaned");
    assert_eq!(method_label(ValidationMethod::CompletedWithSector), "CompletedWithSector");
    assert_eq!(method_label(ValidationMethod::PartialSearch), "PartialSearch");
    assert_eq!(method_label(ValidationMethod::ManualRequired), "ManualRequired");
    assert_eq!(failure_warning("timeout"), "Error de validación: timeout");
}

#[test]
fn trees_can_be_written_by_hand() {
    let tree = Json::Object(vec![Member {
        name: "LstLieuArticle".to_string(),
        value: Json::Array(vec![]),
    }]);
    assert_eq!(tree.get("LstLieuArticle"), Some(&Json::Array(vec![])));
    assert_eq!(tree.get("lstLieuArticle"), None);
    assert_eq!(tree.member_names(), vec!["LstLieuArticle".to_string()]);
    assert_eq!(tree.as_str(), None);
    assert_eq!(Json::Text("x".to_string()).as_str(), Some("x"));
    let twice = Json::Object(vec![
        Member { name: "a".to_string(), value: Json::Bool(true) },
        Member { name: "a".to_string(), value: Json::Bool(false) },
    ]);
    assert_eq!(twice.get("a"), Some(&Json::Bool(true)));
}
