//! The delivery round of an operator: what is asked of the remote service
//! and what is read out of its answer.

use crate::backend::{login_name, login_of};
use crate::json::{items_model, lemma_items_model, Json, JsonModel};
use crate::text::{decimal, decimal_text, same_text};
use vstd::prelude::*;
use vstd::string::StringExecFns;

verus! {

/// The day that is asked for when the caller names none.
pub const DEFAULT_TOURNEE_DATE: &'static str = "2025-09-01";

/// What is sent to the remote service to obtain a round.
#[derive(Debug, PartialEq, Eq)]
pub struct TourneeRequest {
    /// The carrier account, an underscore, the operator.
    pub matricule: String,
    /// The day of the round.
    pub date_debut: String,
}

/// The address of the round service below a base address.
pub fn tournee_url(base: &str) -> (r: String)
    ensures
        r@ == base@ + "/WS-TourneeColis/api/getTourneeByMatriculeDistributeurDateDebut_POST"@,
{
    let mut out = base.to_owned();
    out.append("/WS-TourneeColis/api/getTourneeByMatriculeDistributeurDateDebut_POST");
    out
}

/// The header line that carries the session token.
pub fn token_header(token: &str) -> (r: String)
    ensures
        r@ == "SsoHopps: "@ + token@,
{
    let mut out = "SsoHopps: ".to_owned();
    out.append(token);
    out
}

/// Builds the request for the round of an operator on the day `date`, or
/// on `fallback` when no day is named.
pub fn tournee_request(societe: &str, username: &str, date: Option<&str>, fallback: &str) -> (r:
    TourneeRequest)
    ensures
        r.matricule@ == login_of(societe@, username@),
        r.date_debut@ == (match date {
            Some(day) => day@,
            None => fallback@,
        }),
{
    let day = match date {
        Some(day) => day.to_owned(),
        None => fallback.to_owned(),
    };
    TourneeRequest { matricule: login_name(societe, username), date_debut: day }
}

/// The mathematical value of a [`Package`].
pub struct PackageModel {
    pub id: Seq<char>,
    pub tracking_number: Seq<char>,
    pub recipient_name: Seq<char>,
    pub address: Seq<char>,
    pub status: Seq<char>,
    pub instructions: Seq<char>,
    pub phone: Seq<char>,
    pub priority: Seq<char>,
}

/// One parcel of a round.
#[derive(Debug, PartialEq, Eq)]
pub struct Package {
    pub id: String,
    pub tracking_number: String,
    pub recipient_name: String,
    /// The street, a comma, the postal code and the locality.
    pub address: String,
    pub status: String,
    pub instructions: String,
    pub phone: String,
    /// The priority, in decimal notation.
    pub priority: String,
}

impl View for Package {
    type V = PackageModel;

    open spec fn view(&self) -> PackageModel {
        PackageModel {
            id: self.id@,
            tracking_number: self.tracking_number@,
            recipient_name: self.recipient_name@,
            address: self.address@,
            status: self.status@,
            instructions: self.instructions@,
            phone: self.phone@,
            priority: self.priority@,
        }
    }
}

/// The text that a record holds under `name`.
pub open spec fn text_member(record: JsonModel, name: Seq<char>) -> Option<Seq<char>> {
    match record.member(name) {
        Some(value) => value.text(),
        None => None,
    }
}

/// The address of a parcel as one line.
pub open spec fn address_line(street: Seq<char>, postal_code: Seq<char>, locality: Seq<char>)
    -> Seq<char> {
    street + ", "@ + postal_code + " "@ + locality
}

/// The parcel that a record of a round describes. A record describes one
/// when its trade is `COLIS`, each of its texts is there as a text, and its
/// priority is a non-negative integer; any other record describes none.
pub open spec fn package_of(record: JsonModel) -> Option<PackageModel> {
    if text_member(record, "metier"@) == Some("COLIS"@) && text_member(record, "idArticle"@)
        is Some && text_member(record, "refExterneArticle"@) is Some && text_member(
        record,
        "nomDestinataire"@,
    ) is Some && text_member(record, "LibelleVoieOrigineDestinataire"@) is Some && text_member(
        record,
        "codePostalOrigineDestinataire"@,
    ) is Some && text_member(record, "LibelleLocaliteOrigineDestinataire"@) is Some
        && text_member(record, "codeStatutArticle"@) is Some && text_member(
        record,
        "PreferenceLivraison"@,
    ) is Some && text_member(record, "telephoneMobileDestinataire"@) is Some && record.member(
        "priorite"@,
    ) is Some && record.member("priorite"@)->0.unsigned() is Some {
        Some(
            PackageModel {
                id: text_member(record, "idArticle"@)->0,
                tracking_number: text_member(record, "refExterneArticle"@)->0,
                recipient_name: text_member(record, "nomDestinataire"@)->0,
                address: address_line(
                    text_member(record, "LibelleVoieOrigineDestinataire"@)->0,
                    text_member(record, "codePostalOrigineDestinataire"@)->0,
                    text_member(record, "LibelleLocaliteOrigineDestinataire"@)->0,
                ),
                status: text_member(record, "codeStatutArticle"@)->0,
                instructions: text_member(record, "PreferenceLivraison"@)->0,
                phone: text_member(record, "telephoneMobileDestinataire"@)->0,
                priority: decimal(record.member("priorite"@)->0.unsigned()->0),
            },
        )
    } else {
        None
    }
}

/// The parcels that a run of records describes, in the order of the
/// records.
pub open spec fn packages_among(records: Seq<JsonModel>) -> Seq<PackageModel>
    decreases records.len(),
{
    if records.len() == 0 {
        Seq::empty()
    } else {
        match package_of(records.last()) {
            Some(package) => packages_among(records.drop_last()).push(package),
            None => packages_among(records.drop_last()),
        }
    }
}

/// The parcels of a round: those that the records under `LstLieuArticle`
/// describe; none when the answer has no such array.
pub open spec fn packages_of(answer: JsonModel) -> Seq<PackageModel> {
    match answer.member("LstLieuArticle"@) {
        Some(JsonModel::Array(records)) => packages_among(records),
        _ => Seq::empty(),
    }
}

/// The values of a run of parcels.
pub open spec fn package_models(packages: Seq<Package>) -> Seq<PackageModel> {
    Seq::new(packages.len(), |i: int| packages[i]@)
}

fn text_of_member(record: &Json, name: &str) -> (r: Option<String>)
    ensures
        match r {
            Some(s) => text_member(record@, name@) == Some(s@),
            None => text_member(record@, name@) is None,
        },
{
    match record.get(name) {
        Some(value) => match value.as_str() {
            Some(s) => Some(s.to_owned()),
            None => None,
        },
        None => None,
    }
}

/// Reads the parcel that one record describes.
pub fn read_package(record: &Json) -> (r: Option<Package>)
    ensures
        match r {
            Some(package) => package_of(record@) == Some(package@),
            None => package_of(record@) is None,
        },
{
    let metier = match text_of_member(record, "metier") {
        Some(s) => s,
        None => {
            return None;
        },
    };
    if !same_text(metier.as_str(), "COLIS") {
        return None;
    }
    let id = match text_of_member(record, "idArticle") {
        Some(s) => s,
        None => {
            return None;
        },
    };
    let tracking_number = match text_of_member(record, "refExterneArticle") {
        Some(s) => s,
        None => {
            return None;
        },
    };
    let recipient_name = match text_of_member(record, "nomDestinataire") {
        Some(s) => s,
        None => {
            return None;
        },
    };
    let street = match text_of_member(record, "LibelleVoieOrigineDestinataire") {
        Some(s) => s,
        None => {
            return None;
        },
    };
    let postal_code = match text_of_member(record, "codePostalOrigineDestinataire") {
        Some(s) => s,
        None => {
            return None;
        },
    };
    let locality = match text_of_member(record, "LibelleLocaliteOrigineDestinataire") {
        Some(s) => s,
        None => {
            return None;
        },
    };
    let status = match text_of_member(record, "codeStatutArticle") {
        Some(s) => s,
        None => {
            return None;
        },
    };
    let instructions = match text_of_member(record, "PreferenceLivraison") {
        Some(s) => s,
        None => {
            return None;
        },
    };
    let phone = match text_of_member(record, "telephoneMobileDestinataire") {
        Some(s) => s,
        None => {
            return None;
        },
    };
    let priority = match record.get("priorite") {
        Some(value) => match value.as_u64() {
            Some(n) => decimal_text(n),
            None => {
                return None;
            },
        },
        None => {
            return None;
        },
    };
    let mut address = street;
    address.append(", ");
    address.append(postal_code.as_str());
    address.append(" ");
    address.append(locality.as_str());
    Some(
        Package {
            id,
            tracking_number,
            recipient_name,
            address,
            status,
            instructions,
            phone,
            priority,
        },
    )
}

/// Reads the parcels of a round out of the remote service's answer.
pub fn extract_packages(answer: &Json) -> (r: Vec<Package>)
    ensures
        package_models(r@) == packages_of(answer@),
{
    let mut packages: Vec<Package> = Vec::new();
    match answer.get("LstLieuArticle") {
        Some(Json::Array(records)) => {
            proof {
                lemma_items_model(records@);
            }
            let ghost all = items_model(records@);
            let mut i: usize = 0;
            assert(all.take(0) =~= Seq::<JsonModel>::empty());
            assert(package_models(packages@) =~= packages_among(all.take(0)));
            while i < records.len()
                invariant
                    i <= records.len(),
                    all.len() == records.len(),
                    forall|k: int| 0 <= k < records.len() ==> #[trigger] all[k] == records@[k]@,
                    package_models(packages@) == packages_among(all.take(i as int)),
                decreases records.len() - i,
            {
                let ghost before = packages@;
                proof {
                    assert(all.take(i + 1).drop_last() =~= all.take(i as int));
                    assert(all.take(i + 1).last() == all[i as int]);
                }
                match read_package(&records[i]) {
                    Some(package) => {
                        packages.push(package);
                        assert(package_models(packages@) =~= package_models(before).push(
                            package@,
                        ));
                    },
                    None => {},
                }
                i += 1;
            }
            assert(all.take(i as int) =~= all);
        },
        _ => {
            assert(package_models(packages@) =~= Seq::<PackageModel>::empty());
        },
    }
    packages
}

/// The words that report a round with no parcel left.
pub open spec fn completed_message(code: Seq<char>) -> Seq<char> {
    "Tournée "@ + code + " completada - No hay paquetes pendientes"@
}

/// What an answer without parcels says of the round: the report that the
/// round is completed, where the answer describes the round at all. The
/// round goes by its distribution code, or by `Desconocida` without one.
pub open spec fn completed_round(answer: JsonModel) -> Option<Seq<char>> {
    match answer.member("InfosTournee"@) {
        Some(round) => Some(
            completed_message(
                match text_member(round, "codeTourneeDistribution"@) {
                    Some(code) => code,
                    None => "Desconocida"@,
                },
            ),
        ),
        None => None,
    }
}

/// The report of a completed round, for an answer in which no parcel was
/// found.
pub fn completed_round_message(answer: &Json) -> (r: Option<String>)
    ensures
        match r {
            Some(message) => completed_round(answer@) == Some(message@),
            None => completed_round(answer@) is None,
        },
{
    match answer.get("InfosTournee") {
        Some(round) => {
            let code = match text_of_member(round, "codeTourneeDistribution") {
                Some(code) => code,
                None => "Desconocida".to_owned(),
            };
            let mut message = "Tournée ".to_owned();
            message.append(code.as_str());
            message.append(" completada - No hay paquetes pendientes");
            Some(message)
        },
        None => None,
    }
}

} // verus!
