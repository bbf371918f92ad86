//! Values related to evaluation: piece values and piece-square tables.
use vstd::prelude::*;

verus! {

/// Middlegame values in centipawns for each piece type.
///
/// Order: pawn, knight, bishop, rook, queen, king.
pub const BASE_PIECE_VALUES_MG: [i32; 6] = [77, 254, 278, 393, 955, 10000];

/// Endgame values in centipawns for each piece type.
pub const BASE_PIECE_VALUES_EG: [i32; 6] = [106, 273, 296, 482, 867, 10000];

/// Middlegame piece-square tables from White's point of view, from
/// <https://www.chessprogramming.org/PeSTO%27s_Evaluation_Function>.
///
/// Order: pawn, knight, bishop, rook, queen, king; then squares a1 to h8.
pub const INITIAL_PIECE_SQUARE_TABLES_MG: [[i32; 64]; 6] = [
    [
        0, 0, 0, 0, 0, 0, 0, 0,
        -32, -2, -32, -37, -33, 18, 48, -17,
        -24, -4, -11, -14, -3, -12, 35, -8,
        -22, -7, -11, 6, 8, 5, 2, -26,
        -9, 8, 3, 11, 15, 4, 7, -22,
        14, 3, 54, 50, 66, 61, -10, 4,
        109, 131, 103, 109, 72, 115, 17, -7,
        0, 0, 0, 0, 0, 0, 0, 0,
    ],
    [
        -103, -57, -76, -44, -47, -41, -35, -58,
        -62, -70, -35, -26, -34, 1, -52, -43,
        -63, -34, -12, -16, -5, -7, 3, -50,
        -45, -3, 5, -15, 1, 3, 19, -35,
        -16, 0, 9, 37, 11, 69, 15, 5,
        -66, 40, 4, 65, 29, 85, 52, 41,
        -61, -43, 70, 27, 20, 65, 3, -10,
        -180, -85, -39, -65, 46, -107, -15, -97,
    ],
    [
        -53, -12, -35, -25, -39, -38, -37, -50,
        -7, -8, 3, -16, -17, 28, 18, -18,
        -16, 0, -1, -6, -1, 2, 11, 0,
        3, -4, 1, 8, 10, -5, -4, -4,
        -20, 3, 6, 44, 44, 17, 1, 3,
        -24, 27, 17, 44, -9, 28, 36, 5,
        -29, -2, -51, -36, 20, 49, -37, -63,
        -27, 3, -94, -49, -32, -60, 7, -10,
    ],
    [
        -29, -28, -18, -4, -1, -15, -49, -30,
        -68, -41, -44, -44, -30, -5, -19, -64,
        -51, -46, -42, -52, -17, -24, -4, -44,
        -34, -22, -18, -12, 6, -34, 18, -29,
        -39, -16, 10, 29, 19, 35, -4, 0,
        -8, 35, 17, 53, 33, 75, 71, 28,
        37, 26, 54, 75, 94, 71, 32, 54,
        41, 52, 25, 32, 41, 2, 37, 49,
    ],
    [
        -12, -40, -20, 4, -29, -36, -42, -48,
        -39, -29, 6, -5, 1, 11, -29, -13,
        -26, -4, -18, -11, -18, -5, 14, -24,
        -3, -17, -11, -6, -6, -22, 3, -6,
        -32, -14, -9, -9, 11, 23, -6, 1,
        -30, -12, 12, 20, 44, 68, 71, 55,
        -23, -30, -7, 5, -14, 73, 24, 52,
        -21, 17, 28, 19, 69, 44, 47, 47,
    ],
    [
        -63, 19, -16, -100, -22, -68, 60, 32,
        -20, -25, -42, -101, -78, -26, 35, 26,
        -19, -13, -24, -60, -68, -30, -21, -34,
        -49, -1, -23, -44, -36, -48, -45, -49,
        -14, -21, -8, -25, -26, -16, -5, -34,
        -10, 24, 7, -13, -19, 14, 23, -18,
        29, 2, -20, -3, -3, 2, -34, -27,
        -66, 23, 16, -14, -55, -33, 2, 11,
    ],
];

/// Endgame piece-square tables from White's point of view.
pub const INITIAL_PIECE_SQUARE_TABLES_EG: [[i32; 64]; 6] = [
    [
        0, 0, 0, 0, 0, 0, 0, 0,
        26, 20, 21, 14, 15, 6, -4, -10,
        20, 18, 4, 13, 1, 3, -6, -5,
        22, 22, -3, -5, -11, -12, 2, 2,
        50, 37, 16, 8, -3, -3, 13, 17,
        107, 110, 80, 66, 40, 31, 57, 69,
        167, 170, 167, 136, 147, 116, 179, 182,
        0, 0, 0, 0, 0, 0, 0, 0,
    ],
    [
        -33, -79, -43, -14, -36, -36, -57, -74,
        -54, -21, -15, -4, -14, -25, -37, -53,
        -38, -7, 3, 17, 21, 14, -28, -27,
        -28, -20, 28, 36, 36, 27, 8, -28,
        -19, 12, 43, 33, 41, 21, 16, -19,
        -29, -14, 24, 31, 13, 0, -27, -38,
        -22, -3, -27, 4, -1, -25, -17, -60,
        -54, -33, -21, -36, -44, -33, -62, -99,
    ],
    [
        -38, -24, -49, -14, -24, -43, -1, -34,
        -28, -28, -16, -6, 6, -22, -25, -49,
        -25, -5, 17, 17, 30, 8, -20, -19,
        -25, 5, 21, 42, 16, 17, -3, -8,
        -8, 9, 31, 18, 30, 26, 20, -1,
        10, 13, 17, 15, -6, 32, 14, -7,
        -13, 6, 12, -11, 8, -2, 9, -31,
        -15, -20, -14, -9, -13, -13, -21, -24,
    ],
    [
        -18, -7, 3, 4, -4, -15, -8, -47,
        -43, -23, -11, -6, -7, -13, -32, -10,
        -15, -1, -28, -17, -13, -24, -15, -30,
        -15, 8, 8, 1, -11, 6, -22, -17,
        6, 6, 18, 8, 1, 9, 3, -7,
        22, 4, 16, 13, 17, -5, 8, -2,
        18, 26, 31, 26, 12, 14, 20, 11,
        13, 8, 26, 29, 24, 12, 19, 9,
    ],
    [
        -47, -34, -36, -43, -22, -39, -25, -44,
        -25, -29, -30, -30, -16, -51, -48, -39,
        -28, -34, 13, 4, 0, 12, -7, 2,
        -34, 23, 19, 62, 30, 42, 34, 19,
        0, 29, 26, 54, 60, 41, 60, 41,
        -24, 3, 15, 52, 41, 40, 35, 0,
        -21, 27, 41, 45, 61, 39, 25, 2,
        -3, 24, 18, 36, 45, 21, 6, 16,
    ],
    [
        -72, -33, -16, -19, -35, -16, -41, -69,
        -29, -11, 5, 9, 17, 2, -17, -36,
        -27, -2, 12, 18, 33, 16, 8, -17,
        -15, -2, 27, 36, 32, 29, 18, -12,
        -8, 8, 20, 20, 35, 46, 41, 18,
        8, 23, 8, 29, 28, 46, 41, 14,
        -15, 20, 19, 29, 36, 43, 44, 19,
        -77, -30, -18, -15, -7, 21, 9, -25,
    ],
];

/// Every middlegame piece-square bonus of one piece type is within 200
/// centipawns.
pub proof fn lemma_mg_bound(t: int, s: int)
    requires
        0 <= t < 6,
        0 <= s < 64,
    ensures
        -200 <= INITIAL_PIECE_SQUARE_TABLES_MG[t][s] <= 200,
{
}

/// Every endgame piece-square bonus is within 200 centipawns.
pub proof fn lemma_eg_bound(t: int, s: int)
    requires
        0 <= t < 6,
        0 <= s < 64,
    ensures
        -200 <= INITIAL_PIECE_SQUARE_TABLES_EG[t][s] <= 200,
{
}

/// The weight of each piece towards the phase, indexed by [`Piece`], with a
/// trailing 0 for [`Piece::NONE`](crate::defs::Piece::NONE).
pub const PHASE_WEIGHTS: [u8; 13] = [0, 0, 1, 1, 1, 1, 2, 2, 4, 4, 0, 0, 0];

/// The square seen from the other side of the board: the rank is mirrored.
pub open spec fn mirror(s: int) -> int {
    s % 8 + (7 - s / 8) * 8
}

/// The value of `piece` on `s` in the middlegame (`endgame` false) or the
/// endgame, from White's point of view: the piece value plus its
/// piece-square bonus, negated for Black pieces, whose table is mirrored.
/// [`Piece::NONE`](crate::defs::Piece::NONE) is worth 0.
pub open spec fn psqt(piece: int, s: int, endgame: bool) -> int {
    if 0 <= piece < 12 && 0 <= s < 64 {
        let t = piece / 2;
        if piece % 2 == 1 {
            if endgame {
                BASE_PIECE_VALUES_EG[t] + INITIAL_PIECE_SQUARE_TABLES_EG[t][s]
            } else {
                BASE_PIECE_VALUES_MG[t] + INITIAL_PIECE_SQUARE_TABLES_MG[t][s]
            }
        } else {
            if endgame {
                -(BASE_PIECE_VALUES_EG[t] + INITIAL_PIECE_SQUARE_TABLES_EG[t][mirror(s)])
            } else {
                -(BASE_PIECE_VALUES_MG[t] + INITIAL_PIECE_SQUARE_TABLES_MG[t][mirror(s)])
            }
        }
    } else {
        0
    }
}

/// Every piece-square value is within 10200 centipawns.
pub proof fn lemma_psqt_bound(piece: int, s: int, endgame: bool)
    ensures
        -10200 <= psqt(piece, s, endgame) <= 10200,
{
    if 0 <= piece < 12 && 0 <= s < 64 {
        let t = piece / 2;
        lemma_mg_bound(t, s);
        lemma_eg_bound(t, s);
        lemma_mg_bound(t, mirror(s));
        lemma_eg_bound(t, mirror(s));
    }
}

} // verus!
