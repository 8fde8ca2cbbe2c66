//! Game information from the Steam store API.
use vstd::prelude::*;

use crate::text::{decimal, decimal_string, str_equal};

verus! {

/// What the store knows of a game.
#[derive(Debug, Clone)]
pub struct GameInfo {
    pub app_id: u32,
    pub name: String,
    pub description: String,
    pub header_image: Option<String>,
    pub developers: Vec<String>,
    pub publishers: Vec<String>,
    pub release_date: Option<String>,
}

/// The store's answer for one app.
#[derive(Debug, Clone)]
pub struct SteamApiResponse {
    pub success: bool,
    pub data: Option<GameData>,
}

/// The game data in the store's answer.
#[derive(Debug, Clone)]
pub struct GameData {
    pub name: String,
    pub short_description: Option<String>,
    pub header_image: Option<String>,
    pub developers: Option<Vec<String>>,
    pub publishers: Option<Vec<String>>,
    pub release_date: Option<ReleaseDate>,
}

/// The release date in the store's answer.
#[derive(Debug, Clone)]
pub struct ReleaseDate {
    pub date: Option<String>,
}

/// Why the store's answer held no game information.
#[derive(Debug, Clone, PartialEq, Eq)]
pub enum WebApiError {
    /// The answer has no entry for the app.
    NoDataForApp(u32),
    /// The store answered with a status that is not a success.
    HttpStatus(u16),
}

/// `g` is the game information of an app whose store answer reports
/// success and carries `data`: missing texts and lists are left empty.
pub open spec fn game_info_from_data(g: GameInfo, app_id: u32, data: GameData) -> bool {
    &&& g.app_id == app_id
    &&& g.name == data.name
    &&& g.description@ == match data.short_description {
        Some(d) => d@,
        None => Seq::<char>::empty(),
    }
    &&& g.header_image == data.header_image
    &&& g.developers@ == match data.developers {
        Some(v) => v@,
        None => Seq::<String>::empty(),
    }
    &&& g.publishers@ == match data.publishers {
        Some(v) => v@,
        None => Seq::<String>::empty(),
    }
    &&& g.release_date == match data.release_date {
        Some(r) => r.date,
        None => None,
    }
}

/// The game information keeps what the store gives: the app id asked
/// for, the name, the header image, and each text and list the store gives,
/// as it gives it; what the store leaves out comes out empty.
pub proof fn law_game_info_keeps_store_data(g: GameInfo, app_id: u32, data: GameData)
    requires
        game_info_from_data(g, app_id, data),
    ensures
        g.app_id == app_id,
        g.name@ == data.name@,
        g.header_image == data.header_image,
        data.short_description matches Some(d) ==> g.description@ == d@,
        data.short_description is None ==> g.description@.len() == 0,
        data.developers matches Some(v) ==> g.developers@ == v@,
        data.developers is None ==> g.developers@.len() == 0,
        data.publishers matches Some(v) ==> g.publishers@ == v@,
        data.publishers is None ==> g.publishers@.len() == 0,
        data.release_date matches Some(r) ==> g.release_date == r.date,
        data.release_date is None ==> g.release_date is None,
{
}

/// The game information that the store's entry for an app gives: an error
/// when there is no entry, nothing when the entry reports failure or carries
/// no data, else the data with missing lists and texts left empty.
pub fn game_info_from_entry(app_id: u32, entry: Option<SteamApiResponse>) -> (r: Result<
    Option<GameInfo>,
    WebApiError,
>)
    ensures
        entry is None ==> r == Err::<Option<GameInfo>, WebApiError>(
            WebApiError::NoDataForApp(app_id),
        ),
        entry matches Some(e) && (!e.success || e.data is None) ==> r == Ok::<
            Option<GameInfo>,
            WebApiError,
        >(None),
        entry matches Some(e) && e.success && e.data is Some ==> (r matches Ok(Some(g))
            && game_info_from_data(g, app_id, entry.unwrap().data.unwrap())),
{
    match entry {
        None => Err(WebApiError::NoDataForApp(app_id)),
        Some(e) => {
            if !e.success {
                return Ok(None);
            }
            match e.data {
                None => Ok(None),
                Some(data) => {
                    let description = match data.short_description {
                        Some(d) => d,
                        None => String::new(),
                    };
                    let developers = match data.developers {
                        Some(v) => v,
                        None => Vec::new(),
                    };
                    let publishers = match data.publishers {
                        Some(v) => v,
                        None => Vec::new(),
                    };
                    let release_date = match data.release_date {
                        Some(r) => r.date,
                        None => None,
                    };
                    Ok(
                        Some(
                            GameInfo {
                                app_id,
                                name: data.name,
                                description,
                                header_image: data.header_image,
                                developers,
                                publishers,
                                release_date,
                            },
                        ),
                    )
                },
            }
        },
    }
}

/// Whether the store's answer can be read: a 2xx status can.
pub fn answer_status(status: u16) -> (r: Result<(), WebApiError>)
    ensures
        200 <= status <= 299 ==> r is Ok,
        !(200 <= status <= 299) ==> r == Err::<(), WebApiError>(WebApiError::HttpStatus(status)),
{
    if 200 <= status && status <= 299 {
        Ok(())
    } else {
        Err(WebApiError::HttpStatus(status))
    }
}

/// The position of the first entry of `entries` under `key`.
pub open spec fn first_with_key(entries: Seq<(String, SteamApiResponse)>, key: Seq<char>) -> Option<
    int,
>
    decreases entries.len(),
{
    if entries.len() == 0 {
        None
    } else if entries[0].0@ == key {
        Some(0)
    } else {
        match first_with_key(entries.drop_first(), key) {
            Some(i) => Some(i + 1),
            None => None,
        }
    }
}

proof fn lemma_first_with_key_bounds(entries: Seq<(String, SteamApiResponse)>, key: Seq<char>)
    ensures
        first_with_key(entries, key) matches Some(i) ==> 0 <= i < entries.len() && entries[i].0@
            == key,
    decreases entries.len(),
{
    if entries.len() > 0 {
        lemma_first_with_key_bounds(entries.drop_first(), key);
    }
}

/// The game information that the store's answer, by app id, gives for an
/// app: the entry under the app's decimal id is read as
/// `game_info_from_entry` reads it.
pub fn game_info_from_answer(app_id: u32, entries: Vec<(String, SteamApiResponse)>) -> (r: Result<
    Option<GameInfo>,
    WebApiError,
>)
    ensures
        match first_with_key(entries@, decimal(app_id as nat)) {
            None => r == Err::<Option<GameInfo>, WebApiError>(WebApiError::NoDataForApp(app_id)),
            Some(i) => if entries@[i].1.success && entries@[i].1.data is Some {
                r matches Ok(Some(g)) && game_info_from_data(
                    g,
                    app_id,
                    entries@[i].1.data.unwrap(),
                )
            } else {
                r == Ok::<Option<GameInfo>, WebApiError>(None)
            },
        },
{
    let key = decimal_string(app_id as u64);
    let ghost all = entries@;
    let mut found: Option<SteamApiResponse> = None;
    let n = entries.len();
    proof {
        lemma_first_with_key_bounds(all, key@);
    }
    for e in it: entries
        invariant
            all == it.seq(),
            n == all.len(),
            key@ == decimal(app_id as nat),
            found is None ==> forall|j: int| 0 <= j < it.index() ==> (#[trigger] all[j]).0@ != key@,
            found is Some ==> (first_with_key(all, key@) matches Some(k) && found == Some(all[k].1)),
    {
        if found.is_none() && str_equal(e.0.as_str(), key.as_str()) {
            proof {
                let k = it.index() as int;
                assert(all[k] == e);
                lemma_first_with_key_found(all, key@, k);
            }
            found = Some(e.1);
        }
    }
    proof {
        if found is None {
            lemma_first_with_key_absent(all, key@);
        }
    }
    game_info_from_entry(app_id, found)
}

proof fn lemma_first_with_key_found(entries: Seq<(String, SteamApiResponse)>, key: Seq<char>, k: int)
    requires
        0 <= k < entries.len(),
        entries[k].0@ == key,
        forall|j: int| 0 <= j < k ==> (#[trigger] entries[j]).0@ != key,
    ensures
        first_with_key(entries, key) == Some(k),
    decreases k,
{
    if k > 0 {
        assert forall|j: int| 0 <= j < k - 1 implies (#[trigger] entries.drop_first()[j]).0@ != key by {
            assert(entries.drop_first()[j] == entries[j + 1]);
        }
        lemma_first_with_key_found(entries.drop_first(), key, k - 1);
    }
}

proof fn lemma_first_with_key_absent(entries: Seq<(String, SteamApiResponse)>, key: Seq<char>)
    requires
        forall|j: int| 0 <= j < entries.len() ==> (#[trigger] entries[j]).0@ != key,
    ensures
        first_with_key(entries, key) is None,
    decreases entries.len(),
{
    if entries.len() > 0 {
        assert forall|j: int| 0 <= j < entries.len() - 1 implies (#[trigger] entries.drop_first()[j]).0@ != key by {
            assert(entries.drop_first()[j] == entries[j + 1]);
        }
        lemma_first_with_key_absent(entries.drop_first(), key);
    }
}

} // verus!
