use vstd::prelude::*;
use crate::clock::now_seconds;
use crate::constants::{rank_status_of, RankStatusInServer};
use crate::text::{decimal_text, file_name_safe, safe_file_name, signed_to_text};

verus! {

/// The normalised descriptor of one beatmap difficulty. Times are seconds since
/// the Unix epoch.
#[derive(Debug)]
pub struct Beatmap {
    pub server: String,
    pub id: i32,
    pub set_id: i32,
    pub md5: String,
    pub title: String,
    pub artist: String,
    pub diff_name: String,
    pub mapper: String,
    pub mapper_id: i32,
    pub rank_status: i32,
    pub mode: i16,
    pub length: i32,
    pub length_drain: i32,
    pub max_combo: Option<i32>,
    pub fixed_rank_status: bool,
    pub ranked_by: Option<String>,
    pub last_update: Option<i64>,
    pub update_time: i64,
}

/// One beatmap as the upstream API describes it, its fields already read as numbers.
#[derive(Debug)]
pub struct BeatmapFromApi {
    pub id: i32,
    pub set_id: i32,
    pub md5: String,
    pub title: String,
    pub artist: String,
    pub diff_name: String,
    pub mapper: String,
    pub mapper_id: i32,
    pub rank_status: i32,
    pub mode: i16,
    pub length: i32,
    pub length_drain: i32,
    pub max_combo: Option<i32>,
    pub last_update: Option<i64>,
}

/// Whether an upstream rank status means the record never goes stale.
pub open spec fn is_fixed_rank_status(rank_status: int) -> bool {
    rank_status == 1 || rank_status == 2
}

/// `{artist} - {title} ({mapper}) [{diff_name}].osu`, before sanitising.
pub open spec fn raw_file_name(
    artist: Seq<char>,
    title: Seq<char>,
    mapper: Seq<char>,
    diff_name: Seq<char>,
) -> Seq<char> {
    artist + seq![' ', '-', ' '] + title + seq![' ', '('] + mapper + seq![')', ' ', '['] + diff_name
        + seq![']', '.', 'o', 's', 'u']
}

/// Whether a record stamped at `update_time` is stale at `now` for `ttl` seconds.
pub open spec fn stale_at(fixed: bool, update_time: int, now: int, ttl: int) -> bool {
    !fixed && now - update_time > ttl
}

/// The column list of a `beatmaps.maps` query.
pub const QUERY_FIELDS: &'static str = "\"server\",\"id\",\"set_id\",\"md5\",\"title\",\"artist\",\"diff_name\",\"mapper\",\"mapper_id\",\"rank_status\",\"mode\",\"length\",\"length_drain\",\"max_combo\",\"fixed_rank_status\",\"ranked_by\",\"last_update\",\"update_time\"";

pub(crate) fn copy_text(s: &Option<String>) -> (r: Option<String>)
    ensures
        r == *s,
{
    match s {
        Some(t) => Some(t.clone()),
        None => None,
    }
}

impl Beatmap {
    /// A field-for-field copy.
    pub fn duplicate(&self) -> (r: Beatmap)
        ensures
            r == *self,
    {
        Beatmap {
            server: self.server.clone(),
            id: self.id,
            set_id: self.set_id,
            md5: self.md5.clone(),
            title: self.title.clone(),
            artist: self.artist.clone(),
            diff_name: self.diff_name.clone(),
            mapper: self.mapper.clone(),
            mapper_id: self.mapper_id,
            rank_status: self.rank_status,
            mode: self.mode,
            length: self.length,
            length_drain: self.length_drain,
            max_combo: self.max_combo,
            fixed_rank_status: self.fixed_rank_status,
            ranked_by: copy_text(&self.ranked_by),
            last_update: self.last_update,
            update_time: self.update_time,
        }
    }

    /// The quoted, comma-separated column names of the record.
    pub fn get_query_fields() -> (r: String)
        ensures
            r@ == QUERY_FIELDS@,
    {
        String::from_str(QUERY_FIELDS)
    }

    pub fn is_unranked(&self) -> (r: bool)
        ensures
            r == (self.rank_status < 1),
    {
        self.rank_status < 1
    }

    pub fn is_ranked(&self) -> (r: bool)
        ensures
            r == (self.rank_status > 0 && self.rank_status != 4),
    {
        self.rank_status > 0 && self.rank_status != 4
    }

    pub fn is_qualified(&self) -> (r: bool)
        ensures
            r == (self.rank_status == 3),
    {
        self.rank_status == 3
    }

    pub fn rank_status_in_server(&self) -> (r: RankStatusInServer)
        ensures
            r == rank_status_of(self.rank_status as int),
    {
        RankStatusInServer::from_api_rank_status(self.rank_status)
    }

    /// The sanitised file name `{artist} - {title} ({mapper}) [{diff_name}].osu`.
    pub fn file_name(&self) -> (r: String)
        ensures
            r@ == file_name_safe(
                raw_file_name(self.artist@, self.title@, self.mapper@, self.diff_name@),
            ),
    {
        proof {
            reveal_strlit(" - ");
            reveal_strlit(" (");
            reveal_strlit(") [");
            reveal_strlit("].osu");
        }
        let mut s = self.artist.clone();
        s.append(" - ");
        s.append(self.title.as_str());
        s.append(" (");
        s.append(self.mapper.as_str());
        s.append(") [");
        s.append(self.diff_name.as_str());
        s.append("].osu");
        assert(s@ =~= raw_file_name(self.artist@, self.title@, self.mapper@, self.diff_name@));
        safe_file_name(s)
    }

    /// Whether the record is stale at `now`: never when its rank status is fixed,
    /// else when more than `expires` seconds passed since `update_time`.
    pub fn is_expired_at(&self, now: i64, expires: i64) -> (r: bool)
        ensures
            r == stale_at(self.fixed_rank_status, self.update_time as int, now as int, expires as int),
    {
        if self.fixed_rank_status {
            return false;
        }
        (now as i128) - (self.update_time as i128) > expires as i128
    }

    /// Whether the record is stale now, by the local clock.
    pub fn is_expired(&self, expires: i64) -> (r: bool)
        ensures
            self.fixed_rank_status ==> !r,
    {
        let now = now_seconds();
        self.is_expired_at(now, expires)
    }

    /// The record for an upstream description, ingested at `now`: source `ppy`,
    /// fixed exactly when the rank status is 1 or 2.
    pub fn from_api(f: BeatmapFromApi, now: i64) -> (r: Beatmap)
        ensures
            r.server@ == seq!['p', 'p', 'y'],
            r.id == f.id,
            r.set_id == f.set_id,
            r.md5 == f.md5,
            r.title == f.title,
            r.artist == f.artist,
            r.diff_name == f.diff_name,
            r.mapper == f.mapper,
            r.mapper_id == f.mapper_id,
            r.rank_status == f.rank_status,
            r.mode == f.mode,
            r.length == f.length,
            r.length_drain == f.length_drain,
            r.max_combo == f.max_combo,
            r.fixed_rank_status == is_fixed_rank_status(f.rank_status as int),
            r.ranked_by is None,
            r.last_update == f.last_update,
            r.update_time == now,
    {
        proof {
            reveal_strlit("ppy");
        }
        let fixed = f.rank_status == 1 || f.rank_status == 2;
        Beatmap {
            server: String::from_str("ppy"),
            id: f.id,
            set_id: f.set_id,
            md5: f.md5,
            title: f.title,
            artist: f.artist,
            diff_name: f.diff_name,
            mapper: f.mapper,
            mapper_id: f.mapper_id,
            rank_status: f.rank_status,
            mode: f.mode,
            length: f.length,
            length_drain: f.length_drain,
            max_combo: f.max_combo,
            fixed_rank_status: fixed,
            ranked_by: None,
            last_update: f.last_update,
            update_time: now,
        }
    }
}

/// A stale check never reports a record with a fixed rank status, whatever the
/// time to live and however much time has passed.
pub proof fn lemma_fixed_never_expires(update_time: int, now: int, ttl: int)
    ensures
        !stale_at(true, update_time, now, ttl),
{
}

/// `SELECT <fields> FROM "<table>"."<schema>" WHERE "<query_by>" = $1;`, the
/// statement that reads one record by one column.
pub fn select_by_column_sql(table: &str, schema: &str, query_by: &str, fields: &str) -> (r: String)
    ensures
        r@ == "SELECT "@ + fields@ + " FROM \""@ + table@ + "\".\""@ + schema@ + "\" WHERE \""@ + query_by@
            + "\" = $1;"@,
{
    let mut s = String::from_str("SELECT ");
    s.append(fields);
    s.append(" FROM \"");
    s.append(table);
    s.append("\".\"");
    s.append(schema);
    s.append("\" WHERE \"");
    s.append(query_by);
    s.append("\" = $1;");
    s
}

/// The column a beatmap is looked up by.
#[derive(Debug, Clone, Copy, PartialEq, Eq, Structural)]
pub enum GetBeatmapMethod {
    Md5,
    Bid,
    Sid,
}

impl GetBeatmapMethod {
    pub open spec fn column(self) -> Seq<char> {
        match self {
            GetBeatmapMethod::Md5 => seq!['m', 'd', '5'],
            GetBeatmapMethod::Bid => seq!['i', 'd'],
            GetBeatmapMethod::Sid => seq!['s', 'e', 't', '_', 'i', 'd'],
        }
    }

    pub open spec fn param(self) -> Seq<char> {
        match self {
            GetBeatmapMethod::Md5 => seq!['h'],
            GetBeatmapMethod::Bid => seq!['b'],
            GetBeatmapMethod::Sid => seq!['s'],
        }
    }

    /// The column of `beatmaps.maps` that this method matches.
    pub fn db_column_name(&self) -> (r: String)
        ensures
            r@ == self.column(),
    {
        proof {
            reveal_strlit("md5");
            reveal_strlit("id");
            reveal_strlit("set_id");
        }
        match self {
            Self::Md5 => String::from_str("md5"),
            Self::Bid => String::from_str("id"),
            Self::Sid => String::from_str("set_id"),
        }
    }

    /// The upstream query parameter of this method.
    pub fn query_param(&self) -> (r: String)
        ensures
            r@ == self.param(),
    {
        proof {
            reveal_strlit("h");
            reveal_strlit("b");
            reveal_strlit("s");
        }
        match self {
            Self::Md5 => String::from_str("h"),
            Self::Bid => String::from_str("b"),
            Self::Sid => String::from_str("s"),
        }
    }
}

/// A key a beatmap can be looked up by.
#[derive(Debug)]
pub enum LookupKey {
    Md5(String),
    Bid(i32),
    Sid(i32),
}

impl LookupKey {
    pub open spec fn spec_method(&self) -> GetBeatmapMethod {
        match self {
            LookupKey::Md5(_) => GetBeatmapMethod::Md5,
            LookupKey::Bid(_) => GetBeatmapMethod::Bid,
            LookupKey::Sid(_) => GetBeatmapMethod::Sid,
        }
    }

    pub open spec fn spec_value(&self) -> Seq<char> {
        match self {
            LookupKey::Md5(h) => h@,
            LookupKey::Bid(b) => decimal_text(*b as int),
            LookupKey::Sid(s) => decimal_text(*s as int),
        }
    }

    pub fn method(&self) -> (r: GetBeatmapMethod)
        ensures
            r == self.spec_method(),
    {
        match self {
            LookupKey::Md5(_) => GetBeatmapMethod::Md5,
            LookupKey::Bid(_) => GetBeatmapMethod::Bid,
            LookupKey::Sid(_) => GetBeatmapMethod::Sid,
        }
    }

    /// The key's value as it is written into a query.
    pub fn value_text(&self) -> (r: String)
        ensures
            r@ == self.spec_value(),
    {
        match self {
            LookupKey::Md5(h) => h.clone(),
            LookupKey::Bid(b) => signed_to_text(*b as i64),
            LookupKey::Sid(s) => signed_to_text(*s as i64),
        }
    }
}

} // verus!
