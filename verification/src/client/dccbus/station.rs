//! Which command station to talk to.

use crate::client::config::BigFredConfig;
use crate::client::error::Error;
use crate::client::error::ErrorView;
use crate::client::error::Result;
use crate::client::http::is_success;
use crate::client::http;
use crate::client::wire::CommandStation;
use crate::client::wire::CommandStationView;
use crate::text::decimal;
use crate::text::utf8_lossy;
use crate::text;
use vstd::prelude::*;
use vstd::string::*;

verus! {

/// How the station is found.
#[derive(Debug, PartialEq, Eq)]
pub enum PickStep {
    /// The configuration names it.
    Fixed(CommandStation),
    /// Ask the catalogue: `GET url` with this `authorization` header.
    Fetch { url: String, authorization: String },
}

/// What the catalogue request came to.
#[derive(Debug, PartialEq, Eq)]
pub enum CatalogueReply {
    /// No answer; the transport's message.
    Unreachable(String),
    /// An answer. `stations` is the body read as JSON, or why it could not be.
    Answered {
        status: u16,
        body: Vec<u8>,
        stations: core::result::Result<Vec<CommandStation>, String>,
    },
}

/// The station of a fixed id.
pub open spec fn fixed_station_view(id: u64) -> CommandStationView {
    CommandStationView {
        id,
        name: "dcc-bus #"@ + text::decimal_text(id as nat),
        kind: Seq::empty(),
        programming: true,
        hide_in_throttle: false,
        default_programming_track_output: Seq::empty(),
    }
}

/// Decides how the programming-capable station is found. A configured
/// `fixed_dcc_bus` skips catalogue autodetection.
pub fn pick_station(cfg: &BigFredConfig, token: &str) -> (r: PickStep)
    ensures
        match cfg.fixed_dcc_bus {
            Some((id, _)) => r matches PickStep::Fixed(s) && s@ == fixed_station_view(id),
            None => r matches PickStep::Fetch { url, authorization } && url@ == cfg.api_base@
                + "/api/v1/command-stations/catalogue"@ && authorization@ == "Bearer "@ + token@,
        },
{
    match cfg.fixed_dcc_bus {
        Some((id, _)) => PickStep::Fixed(
            CommandStation {
                id,
                name: "dcc-bus #".to_owned().concat(decimal(id).as_str()),
                kind: String::new(),
                programming: true,
                hide_in_throttle: false,
                default_programming_track_output: String::new(),
            },
        ),
        None => PickStep::Fetch {
            url: cfg.api_base.clone().concat("/api/v1/command-stations/catalogue"),
            authorization: "Bearer ".to_owned().concat(token),
        },
    }
}

/// Position `i` holds the programming-capable station with the lowest id, the
/// first one of that id.
pub open spec fn is_lowest_programming(stations: Seq<CommandStation>, i: int) -> bool {
    &&& 0 <= i < stations.len()
    &&& stations[i].programming
    &&& forall|k: int|
        0 <= k < stations.len() && (#[trigger] stations[k]).programming ==> {
            &&& stations[i].id <= stations[k].id
            &&& k < i ==> stations[i].id < stations[k].id
        }
}

/// Whether no station of the list can program.
pub open spec fn none_programming(stations: Seq<CommandStation>) -> bool {
    forall|k: int| 0 <= k < stations.len() ==> !(#[trigger] stations[k]).programming
}

/// Picks the programming-capable command station with the lowest id.
pub fn lowest_programming(stations: Vec<CommandStation>) -> (r: Result<CommandStation>)
    ensures
        match r {
            Ok(s) => exists|i: int|
                #[trigger] is_lowest_programming(stations@, i) && s == stations@[i],
            Err(e) => none_programming(stations@) && e@ == ErrorView::NoProgrammingStation,
        },
        r is Ok <==> exists|k: int|
            0 <= k < stations@.len() && (#[trigger] stations@[k]).programming,
        r matches Ok(s) ==> {
            &&& stations@.contains(s)
            &&& s.programming
            &&& forall|k: int|
                0 <= k < stations@.len() && (#[trigger] stations@[k]).programming ==> s.id
                    <= stations@[k].id
        },
{
    let mut stations = stations;
    let ghost all = stations@;
    let mut best: Option<usize> = None;
    let mut i: usize = 0;
    while i < stations.len()
        invariant
            i <= stations@.len(),
            stations@ == all,
            match best {
                Some(b) => b < i && is_lowest_programming(all.take(i as int), b as int),
                None => none_programming(all.take(i as int)),
            },
        decreases stations@.len() - i,
    {
        let ghost before = all.take(i as int);
        let ghost after = all.take(i + 1);
        assert(forall|k: int| 0 <= k < i ==> after[k] == before[k]);
        if stations[i].programming {
            match best {
                Some(b) => {
                    assert(before[b as int] == all[b as int]);
                    if stations[i].id < stations[b].id {
                        best = Some(i);
                    }
                },
                None => {
                    best = Some(i);
                },
            }
        }
        i += 1;
    }
    assert(all.take(i as int) =~= all);
    match best {
        Some(b) => {
            let s = stations.swap_remove(b);
            assert(is_lowest_programming(all, b as int));
            Ok(s)
        },
        None => Err(Error::NoProgrammingStation),
    }
}

/// At most one position holds the lowest programming-capable station, so the
/// choice does not depend on how the list is searched.
pub proof fn lemma_lowest_programming_unique(stations: Seq<CommandStation>, i: int, j: int)
    requires
        is_lowest_programming(stations, i),
        is_lowest_programming(stations, j),
    ensures
        i == j,
{
    assert(stations[i].programming && stations[j].programming);
}

/// Turns the catalogue's reply into a station.
pub fn station_from_catalogue(reply: CatalogueReply) -> (r: Result<CommandStation>)
    ensures
        match reply {
            CatalogueReply::Unreachable(text) => r matches Err(e) && e@
                == ErrorView::OauthUnreachable(text@),
            CatalogueReply::Answered { status, body, stations } => if status == 401 || status
                == 403 {
                r matches Err(e) && e@ == ErrorView::Unauthorized
            } else if !http::success_status(status) {
                r matches Err(e) && e@ == ErrorView::CatalogueUnavailable(text::lossy_text(body@))
            } else {
                match stations {
                    Err(text) => r matches Err(e) && e@ == ErrorView::CatalogueBadResponse(text@),
                    Ok(list) => match r {
                        Ok(s) => exists|i: int|
                            #[trigger] is_lowest_programming(list@, i) && s == list@[i],
                        Err(e) => none_programming(list@) && e@ == ErrorView::NoProgrammingStation,
                    },
                }
            },
        },
{
    match reply {
        CatalogueReply::Unreachable(text) => Err(Error::OauthUnreachable(text)),
        CatalogueReply::Answered { status, body, stations } => {
            if status == 401 || status == 403 {
                Err(Error::Unauthorized)
            } else if !is_success(status) {
                Err(Error::CatalogueUnavailable(utf8_lossy(body.as_slice())))
            } else {
                match stations {
                    Err(text) => Err(Error::CatalogueBadResponse(text)),
                    Ok(list) => lowest_programming(list),
                }
            }
        },
    }
}

/// A configured station is taken as it is: its own id, able to program, shown, and
/// named after its id. Two of them have different names.
pub proof fn lemma_fixed_station(id: u64, other: u64)
    ensures
        ({
            let station = fixed_station_view(id);
            &&& station.id == id
            &&& station.programming
            &&& !station.hide_in_throttle
            &&& station.kind.len() == 0
            &&& station.default_programming_track_output.len() == 0
            &&& station.name == "dcc-bus #"@ + text::decimal_text(id as nat)
            &&& station.name == fixed_station_view(other).name ==> id == other
        }),
{
    let label = "dcc-bus #"@;
    let a = label + text::decimal_text(id as nat);
    let b = label + text::decimal_text(other as nat);
    if a == b {
        assert(a.skip(label.len() as int) =~= text::decimal_text(id as nat));
        assert(b.skip(label.len() as int) =~= text::decimal_text(other as nat));
        text::lemma_decimal_text_tells_numbers_apart(id as nat, other as nat);
    }
}

/// The station that is chosen can program and no station that can has a lower id,
/// nor the same one further up; stations that cannot program do not matter. There
/// is one exactly if some station can program.
pub proof fn lemma_lowest_programming_station(stations: Seq<CommandStation>, i: int, k: int)
    requires
        0 <= k < stations.len(),
    ensures
        is_lowest_programming(stations, i) ==> 0 <= i < stations.len() && stations[i].programming,
        is_lowest_programming(stations, i) && stations[k].programming ==> stations[i].id
            <= stations[k].id && (stations[k].id == stations[i].id ==> i <= k),
        stations[k].programming ==> exists|j: int| is_lowest_programming(stations, j),
        none_programming(stations) ==> !stations[k].programming,
{
    if stations[k].programming {
        lemma_some_station_is_lowest(stations, k);
    }
}

proof fn lemma_some_station_is_lowest(stations: Seq<CommandStation>, k: int)
    requires
        0 <= k < stations.len(),
        stations[k].programming,
    ensures
        exists|j: int| is_lowest_programming(stations, j),
    decreases stations[k].id, k,
{
    if !is_lowest_programming(stations, k) {
        let j = choose|j: int|
            0 <= j < stations.len() && (#[trigger] stations[j]).programming && !(stations[k].id
                <= stations[j].id && (j < k ==> stations[k].id < stations[j].id));
        lemma_some_station_is_lowest(stations, j);
    }
}

} // verus!
