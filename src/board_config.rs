use vstd::prelude::*;

use crate::types::Side;
use crate::wire::HttpBoardConfig;

verus! {

/// Most seats a side may have in a room made through the public interface.
pub const MAX_TEAM_PLAYER_LIMIT: usize = 2;

/// The settings of one room.
#[derive(Clone, Copy, Debug, PartialEq, Eq, Structural)]
pub struct BoardConfig {
    /// Seats per side.
    pub team_player_limit: usize,
    /// The side that moves first.
    pub first_side: Side,
}

/// The settings that a request asks for: one seat per side and side A first
/// where it names none; a seat limit outside `1..=2` is refused.
pub open spec fn config_from_http(value: HttpBoardConfig) -> Result<BoardConfig, ()> {
    match value.team_player_limit {
        Some(limit) => if 1 <= limit <= MAX_TEAM_PLAYER_LIMIT {
            Ok(
                BoardConfig {
                    team_player_limit: limit,
                    first_side: match value.first_side {
                        Some(s) => s,
                        None => Side::A,
                    },
                },
            )
        } else {
            Err(())
        },
        None => Ok(
            BoardConfig {
                team_player_limit: 1,
                first_side: match value.first_side {
                    Some(s) => s,
                    None => Side::A,
                },
            },
        ),
    }
}

impl vstd::std_specs::convert::TryFromSpecImpl<HttpBoardConfig> for BoardConfig {
    open spec fn obeys_try_from_spec() -> bool {
        true
    }

    open spec fn try_from_spec(value: HttpBoardConfig) -> Result<Self, &'static str> {
        match config_from_http(value) {
            Ok(config) => Ok(config),
            Err(_) => Err("INVALID_PLAYER_LIMIT"),
        }
    }
}

impl TryFrom<HttpBoardConfig> for BoardConfig {
    type Error = &'static str;

    /// Checks the requested settings; the error is `"INVALID_PLAYER_LIMIT"`.
    fn try_from(value: HttpBoardConfig) -> (r: Result<Self, Self::Error>)
        ensures
            config_from_http(value) is Ok <==> r is Ok,
            r is Ok ==> config_from_http(value) == Ok::<BoardConfig, ()>(r->Ok_0),
            r is Err ==> r->Err_0@ == "INVALID_PLAYER_LIMIT"@,
    {
        proof {
            reveal_strlit("INVALID_PLAYER_LIMIT");
        }
        let team_player_limit = match value.team_player_limit {
            Some(limit) => {
                if limit >= 1 && limit <= MAX_TEAM_PLAYER_LIMIT {
                    limit
                } else {
                    return Err("INVALID_PLAYER_LIMIT");
                }
            },
            None => 1,
        };
        let first_side = match value.first_side {
            Some(s) => s,
            None => Side::A,
        };
        Ok(BoardConfig { team_player_limit, first_side })
    }
}

} // verus!
