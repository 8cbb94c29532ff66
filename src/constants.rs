use vstd::prelude::*;

verus! {

/// Rank status of a beatmap as this server stores it.
#[derive(Debug, Clone, Copy, PartialEq, Eq, Structural)]
pub enum RankStatusInServer {
    NotSubmitted,
    Pending,
    Outdated,
    Ranked,
    Approved,
    Qualified,
    Loved,
    Unknown,
}

/// The fixed mapping from the upstream API's rank status integer.
pub open spec fn rank_status_of(i: int) -> RankStatusInServer {
    if -2 <= i <= 0 {
        RankStatusInServer::Pending
    } else if i == 1 {
        RankStatusInServer::Ranked
    } else if i == 2 {
        RankStatusInServer::Approved
    } else if i == 3 {
        RankStatusInServer::Qualified
    } else if i == 4 {
        RankStatusInServer::Loved
    } else {
        RankStatusInServer::Unknown
    }
}

impl RankStatusInServer {
    /// The server's own integer code of a status (`None` for `Unknown`).
    pub open spec fn code(self) -> Option<int> {
        match self {
            RankStatusInServer::NotSubmitted => Some(-1),
            RankStatusInServer::Pending => Some(0),
            RankStatusInServer::Outdated => Some(1),
            RankStatusInServer::Ranked => Some(2),
            RankStatusInServer::Approved => Some(3),
            RankStatusInServer::Qualified => Some(4),
            RankStatusInServer::Loved => Some(5),
            RankStatusInServer::Unknown => None,
        }
    }

    pub fn from_api_rank_status(i: i32) -> (r: Self)
        ensures
            r == rank_status_of(i as int),
    {
        match i {
            -2 => Self::Pending,
            -1 => Self::Pending,
            0 => Self::Pending,
            1 => Self::Ranked,
            2 => Self::Approved,
            3 => Self::Qualified,
            4 => Self::Loved,
            _ => Self::Unknown,
        }
    }

    /// The server's integer code of this status.
    pub fn server_code(&self) -> (r: Option<i32>)
        ensures
            r matches Some(v) ==> self.code() == Some(v as int),
            r is None <==> self.code() is None,
    {
        match self {
            Self::NotSubmitted => Some(-1),
            Self::Pending => Some(0),
            Self::Outdated => Some(1),
            Self::Ranked => Some(2),
            Self::Approved => Some(3),
            Self::Qualified => Some(4),
            Self::Loved => Some(5),
            Self::Unknown => None,
        }
    }
}

/// Mapping an upstream status is total, and each upstream value lands on exactly
/// the status that the fixed table gives it; no value reaches `NotSubmitted` or
/// `Outdated`.
pub proof fn lemma_rank_status_total(i: int)
    ensures
        rank_status_of(i) != RankStatusInServer::NotSubmitted,
        rank_status_of(i) != RankStatusInServer::Outdated,
        (rank_status_of(i) == RankStatusInServer::Pending) <==> (-2 <= i <= 0),
        (rank_status_of(i) == RankStatusInServer::Unknown) <==> (i < -2 || i > 4),
{
}

} // verus!
