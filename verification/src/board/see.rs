//! Static Exchange Evaluation (SEE): whether the exchange of captures on
//! the destination square of a move wins material.
use vstd::prelude::*;
use vstd::std_specs::bits::u64_trailing_zeros;

use crate::bitboard::{
    bit, group_sq_in, lemma_lowest_bit, lemma_remove_square, lemma_sq_in_and, lemma_sq_in_empty,
    lemma_sq_in_not, sq_in, Bitboard,
};
use crate::board::attacks::{attackers, occupancy};
use crate::board::{kind_bb, lemma_kind_bb, mailbox_ok, Board, BoardState};
use crate::bitops::{lemma_u64_ops, lemma_u8_ops};
use crate::defs::{spec_see_bonus, Piece, PieceType, Side, Square};
use crate::lookups::{slider_attacks, Lookup};
use crate::movegen::{lemma_move_ranges, Move};

verus! {

/// The first piece type, pawn to king, with a piece among `attackers`; the
/// king if there is none.
pub open spec fn cheapest_type(mailbox: Seq<Piece>, attackers: u64) -> int {
    if kind_bb(mailbox, 0, 64) & attackers != 0 {
        0
    } else if kind_bb(mailbox, 1, 64) & attackers != 0 {
        1
    } else if kind_bb(mailbox, 2, 64) & attackers != 0 {
        2
    } else if kind_bb(mailbox, 3, 64) & attackers != 0 {
        3
    } else if kind_bb(mailbox, 4, 64) & attackers != 0 {
        4
    } else {
        5
    }
}

/// The lowest square of a set, as a set; empty for the empty set.
pub open spec fn lowest(bb: u64) -> u64 {
    if bb == 0 {
        0
    } else {
        bit(u64_trailing_zeros(bb) as int)
    }
}

/// The exchange on `target` from the point where `side` is to recapture,
/// with `value` the material balance that side must beat, `occupancies`
/// the pieces still on the board and `attackers` those of them attacking
/// `target`: each side recaptures with its cheapest attacker, which may
/// reveal sliders behind it, until a side has no attacker or is behind even
/// after recapturing. Returns the side that loses the exchange.
pub open spec fn exchange_loser(
    mailbox: Seq<Piece>,
    target: int,
    value: int,
    side: int,
    occupancies: u64,
    attackers: u64,
) -> int
    decreases occupancies,
{
    let ours = attackers & kind_bb(mailbox, 6 + side, 64);
    if ours == 0 {
        side
    } else {
        let attacker_type = cheapest_type(mailbox, ours);
        let next = lowest(kind_bb(mailbox, attacker_type, 64) & ours);
        let occ = occupancies ^ next;
        let diagonal = kind_bb(mailbox, 2, 64) | kind_bb(mailbox, 4, 64);
        let orthogonal = kind_bb(mailbox, 3, 64) | kind_bb(mailbox, 4, 64);
        let with_diagonal = if attacker_type % 2 == 0 {
            attackers | slider_attacks(true, target, occ) & diagonal
        } else {
            attackers
        };
        let with_orthogonal = if attacker_type >= PieceType::ROOK {
            with_diagonal | slider_attacks(false, target, occ) & orthogonal
        } else {
            with_diagonal
        };
        let remaining = with_orthogonal & occ;
        let other = 1 - side;
        let new_value = value + spec_see_bonus(attacker_type);
        if new_value < 0 {
            // a king that recaptured into attackers made an illegal move
            if attacker_type == PieceType::KING && remaining & kind_bb(mailbox, 6 + other, 64)
                != 0 {
                side
            } else {
                other
            }
        } else if occ < occupancies {
            exchange_loser(mailbox, target, -new_value - 1, other, occ, remaining)
        } else {
            other
        }
    }
}

/// The material balance of a capture for the side to move if the capturer
/// were taken back: what it takes (a pawn en passant), plus what a
/// promotion gains, minus the value of the capturing piece.
pub open spec fn see_balance(state: BoardState, mv: Move) -> int {
    let mailbox = state.mailbox;
    let captured_type = if mv.en_passant() {
        PieceType::PAWN as int
    } else {
        mailbox[mv.end_sq()].type_of()
    };
    let value = spec_see_bonus(captured_type) + if mv.promotion() {
        spec_see_bonus(mv.promo_type()) - spec_see_bonus(PieceType::PAWN as int)
    } else {
        0
    };
    let attacker_type = if mv.promotion() {
        mv.promo_type()
    } else {
        mailbox[mv.start_sq()].type_of()
    };
    value - spec_see_bonus(attacker_type)
}

/// The exchange is decided without looking at recaptures: the move
/// captures nothing, or wins material even if the capturer is taken back.
pub open spec fn settled_at_once(state: BoardState, mv: Move) -> bool {
    (!mv.en_passant() && state.mailbox[mv.end_sq()].0 == Piece::NONE) || see_balance(state, mv) >= 0
}

/// The exchange started by a move wins material for the side to move, or
/// at least does not lose it: a move that captures nothing counts as
/// winning.
pub open spec fn winning_exchange(state: BoardState, mv: Move) -> bool {
    let s = mv.start_sq();
    let e = mv.end_sq();
    let us = state.side_to_move as int;
    let occupancies = occupancy(state.mailbox) ^ bit(s);
    if settled_at_once(state, mv) {
        true
    } else {
        exchange_loser(
            state.mailbox,
            e,
            see_balance(state, mv),
            1 - us,
            occupancies,
            attackers(state.mailbox, us, e) & occupancies,
        ) != us
    }
}

/// X-rays: the sliders of the other side that a recapture uncovers join
/// the exchange. When `side` recaptures with its cheapest attacker, a rook
/// or queen uncovers the rooks and queens that then see the target along a
/// rank or file through the square it left, and a pawn, bishop or queen
/// the bishops and queens that then see it along a diagonal. Listing any
/// of those of the other side among the attackers before the recapture
/// gives the same outcome as leaving them to be found behind the
/// recapturing piece.
pub proof fn lemma_uncovered_sliders_join(
    mailbox: Seq<Piece>,
    target: int,
    value: int,
    side: int,
    occupancies: u64,
    attackers: u64,
    uncovered: u64,
)
    requires
        0 <= side < 2,
        uncovered & kind_bb(mailbox, 6 + side, 64) == 0,
        ({
            let t = cheapest_type(mailbox, attackers & kind_bb(mailbox, 6 + side, 64));
            let occ = occupancies ^ lowest(
                kind_bb(mailbox, t, 64) & attackers & kind_bb(mailbox, 6 + side, 64),
            );
            let along_lines = if t == PieceType::ROOK || t == PieceType::QUEEN {
                slider_attacks(false, target, occ) & (kind_bb(mailbox, 3, 64) | kind_bb(mailbox, 4, 64))
            } else {
                0
            };
            let along_diagonals = if t == PieceType::PAWN || t == PieceType::BISHOP || t
                == PieceType::QUEEN {
                slider_attacks(true, target, occ) & (kind_bb(mailbox, 2, 64) | kind_bb(mailbox, 4, 64))
            } else {
                0
            };
            uncovered & !((along_lines | along_diagonals) & occ) == 0
        }),
    ensures
        exchange_loser(mailbox, target, value, side, occupancies, attackers | uncovered)
            == exchange_loser(mailbox, target, value, side, occupancies, attackers),
{
    broadcast use group_sq_in;

    let us_bb = kind_bb(mailbox, 6 + side, 64);
    let ours1 = (attackers | uncovered) & us_bb;
    let ours0 = attackers & us_bb;
    assert forall|i: int| 0 <= i < 64 implies sq_in(ours1, i) == sq_in(ours0, i) by {
        assert(!sq_in(uncovered & us_bb, i));
    }
    crate::bitboard::lemma_sq_in_ext(ours1, ours0);
    if ours0 != 0 {
        let t = cheapest_type(mailbox, ours0);
        let next = lowest(kind_bb(mailbox, t, 64) & ours0);
        let occ = occupancies ^ next;
        let diagonal = kind_bb(mailbox, 2, 64) | kind_bb(mailbox, 4, 64);
        let orthogonal = kind_bb(mailbox, 3, 64) | kind_bb(mailbox, 4, 64);
        let a1 = attackers | uncovered;
        let wd1 = if t % 2 == 0 {
            a1 | slider_attacks(true, target, occ) & diagonal
        } else {
            a1
        };
        let wo1 = if t >= PieceType::ROOK {
            wd1 | slider_attacks(false, target, occ) & orthogonal
        } else {
            wd1
        };
        let wd0 = if t % 2 == 0 {
            attackers | slider_attacks(true, target, occ) & diagonal
        } else {
            attackers
        };
        let wo0 = if t >= PieceType::ROOK {
            wd0 | slider_attacks(false, target, occ) & orthogonal
        } else {
            wd0
        };
        let along_lines = if t == PieceType::ROOK || t == PieceType::QUEEN {
            slider_attacks(false, target, occ) & orthogonal
        } else {
            0
        };
        let along_diagonals = if t == PieceType::PAWN || t == PieceType::BISHOP || t == PieceType::QUEEN {
            slider_attacks(true, target, occ) & diagonal
        } else {
            0
        };
        let found = (along_lines | along_diagonals) & occ;
        assert(kind_bb(mailbox, t, 64) & attackers & us_bb == kind_bb(mailbox, t, 64) & ours0) by {
            assert forall|i: int| 0 <= i < 64 implies sq_in(kind_bb(mailbox, t, 64) & attackers & us_bb, i)
                == sq_in(kind_bb(mailbox, t, 64) & ours0, i) by {}
            crate::bitboard::lemma_sq_in_ext(kind_bb(mailbox, t, 64) & attackers & us_bb, kind_bb(mailbox, t, 64) & ours0);
        }
        assert forall|i: int| 0 <= i < 64 implies sq_in(wo1 & occ, i) == sq_in(wo0 & occ, i) by {
            if sq_in(uncovered, i) {
                assert(!sq_in(uncovered & !found, i));
                assert(sq_in(found, i));
            }
        }
        crate::bitboard::lemma_sq_in_ext(wo1 & occ, wo0 & occ);
    }
}

/// A capture the other side cannot answer never loses the exchange: when
/// no piece of the other side attacks the target once the capturer has
/// left its square, the exchange counts as winning.
pub proof fn lemma_unanswered_capture_wins(state: BoardState, mv: Move)
    requires
        state.side_to_move < 2,
        attackers(state.mailbox, state.side_to_move as int, mv.end_sq()) & (occupancy(state.mailbox)
            ^ bit(mv.start_sq())) & kind_bb(state.mailbox, 6 + (1 - state.side_to_move), 64) == 0,
    ensures
        winning_exchange(state, mv),
{
    broadcast use group_sq_in;

    let a = attackers(state.mailbox, state.side_to_move as int, mv.end_sq()) & (occupancy(
        state.mailbox,
    ) ^ bit(mv.start_sq()));
    let them = kind_bb(state.mailbox, 6 + (1 - state.side_to_move), 64);
    assert(a & them == 0);
}

/// A non-empty set of squares of pieces of one side holds a piece of its
/// cheapest type.
proof fn lemma_cheapest_exists(mailbox: Seq<Piece>, side: int, ours: u64)
    requires
        mailbox_ok(mailbox),
        0 <= side < 2,
        ours != 0,
        ours & !kind_bb(mailbox, 6 + side, 64) == 0,
    ensures
        kind_bb(mailbox, cheapest_type(mailbox, ours), 64) & ours != 0,
        0 <= cheapest_type(mailbox, ours) < 6,
{
    broadcast use group_sq_in;

    lemma_sq_in_empty(ours);
    lemma_sq_in_empty(ours & !kind_bb(mailbox, 6 + side, 64));
    let t = choose|t: int| 0 <= t < 64 && sq_in(ours, t);
    assert(!sq_in(ours & !kind_bb(mailbox, 6 + side, 64), t));
    assert(sq_in(kind_bb(mailbox, 6 + side, 64), t));
    lemma_kind_bb(mailbox, 6 + side, 64, t);
    let ty = mailbox[t].type_of();
    lemma_kind_bb(mailbox, ty, 64, t);
    assert(sq_in(kind_bb(mailbox, ty, 64) & ours, t));
    lemma_sq_in_empty(kind_bb(mailbox, ty, 64) & ours);
}

impl Board {
    /// The cheapest piece type among `ours` and the squares of that type in
    /// it (see [`cheapest_type`]).
    fn cheapest_attacker(&self, ours: u64) -> (result: (PieceType, u64))
        requires
            self.wf(),
        ensures
            result.0.0 == cheapest_type(self@.mailbox, ours),
            result.1 == kind_bb(self@.mailbox, result.0.0 as int, 64) & ours,
    {
        let mut piece_type: u8 = 0;
        while piece_type < 5
            invariant
                self.wf(),
                piece_type <= 5,
                forall|t: int| 0 <= t < piece_type ==> kind_bb(self@.mailbox, t, 64) & ours == 0,
            decreases 5 - piece_type,
        {
            let attacker = self.piece_any(PieceType(piece_type)).0 & ours;
            if attacker != 0 {
                return (PieceType(piece_type), attacker);
            }
            piece_type = piece_type + 1;
        }
        (PieceType(5), self.piece_any(PieceType(5)).0 & ours)
    }

    /// Performs Static Exchange Evaluation (SEE) on the destination square
    /// of the given move (see [`winning_exchange`]). With no side to move,
    /// only exchanges settled at once can be evaluated (the attackers of a
    /// side are needed otherwise).
    #[verifier::rlimit(30)]
    pub fn is_winning_exchange(&self, lookup: &Lookup, mv: Move) -> (winning: bool)
        requires
            self.wf(),
            lookup.wf(),
            self@.side_to_move < 2 || settled_at_once(self@, mv),
        ensures
            winning == winning_exchange(self@, mv),
    {
        broadcast use group_sq_in;

        let ghost st = self@;
        let ghost mb = self@.mailbox;
        proof {
            lemma_move_ranges(mv);
        }
        let origin = mv.start();
        let target = mv.end();
        let mut us = self.side_to_move();

        let captured_type = if mv.is_en_passant() {
            PieceType(PieceType::PAWN)
        } else {
            let captured = self.piece_on(target).piece_type();
            if captured.0 == PieceType::NONE {
                return true;
            }
            captured
        };
        let mut see_value: i32 = captured_type.see_bonus() as i32;
        if mv.is_promotion() {
            // swap the pawn value with the promotion piece value
            see_value = see_value + mv.promotion_piece().see_bonus() as i32 - PieceType(
                PieceType::PAWN,
            ).see_bonus() as i32;
        }
        let attacker_type = if mv.is_promotion() {
            mv.promotion_piece()
        } else {
            self.piece_on(origin).piece_type()
        };
        see_value = see_value - attacker_type.see_bonus() as i32;
        // if we're up material even if they recapture
        if see_value >= 0 {
            return true;
        }

        let mut occupancies = self.occupancies().0 ^ Bitboard::from_square(origin).0;
        let square_attackers = self.square_attackers(lookup, us, target).0;
        let mut attacking = square_attackers & occupancies;
        let diagonal = self.piece::<2>().0 | self.piece::<4>().0;
        let orthogonal = self.piece::<3>().0 | self.piece::<4>().0;
        us = us.flip();
        let ghost loser = exchange_loser(mb, target.0 as int, see_value as int, us.0 as int, occupancies, attacking);
        assert(loser == exchange_loser(mb, target.0 as int, see_value as int, 1 - st.side_to_move, occupancy(mb) ^ bit(origin.0 as int), attackers(mb, st.side_to_move as int, target.0 as int) & (occupancy(mb) ^ bit(origin.0 as int))));
        proof {
            lemma_u64_ops(square_attackers, occupancies, 0);
        }

        loop
            invariant_except_break
                -1000 <= see_value < 0,
                attacking & !occupancies == 0,
                loser == exchange_loser(mb, target.0 as int, see_value as int, us.0 as int, occupancies, attacking),
            invariant
                self.wf(),
                lookup.wf(),
                self@ == st,
                mb == st.mailbox,
                target.valid(),
                us.0 < 2,
                diagonal == kind_bb(mb, 2, 64) | kind_bb(mb, 4, 64),
                orthogonal == kind_bb(mb, 3, 64) | kind_bb(mb, 4, 64),
            ensures
                us.0 == loser,
            decreases occupancies,
        {
            let ghost old_us = us.0 as int;
            let ghost old_occ = occupancies;
            let ghost old_value = see_value as int;
            let ghost old_attackers = attacking;
            let our_attackers = attacking & self.side_any(us).0;
            // if we don't have any pieces to recapture with
            if our_attackers == 0 {
                break ;
            }
            proof {
                lemma_u64_ops(attacking, kind_bb(mb, 6 + us.0, 64), 0);
                lemma_cheapest_exists(mb, us.0 as int, our_attackers);
            }
            let (attacker_type, attacker) = self.cheapest_attacker(our_attackers);
            let mut attacker_bb = Bitboard(attacker);
            let next_attacker = attacker_bb.pop_lsb();
            proof {
                lemma_lowest_bit(attacker);
                let t = u64_trailing_zeros(attacker) as int;
                lemma_sq_in_empty(attacking & !occupancies);
                assert(sq_in(attacker, t));
                lemma_sq_in_and(kind_bb(mb, attacker_type.0 as int, 64), our_attackers, t);
                lemma_sq_in_and(attacking, kind_bb(mb, 6 + us.0, 64), t);
                lemma_sq_in_and(attacking, !occupancies, t);
                lemma_sq_in_not(occupancies, t);
                assert(!sq_in(attacking & !occupancies, t));
                assert(sq_in(occupancies, t));
                lemma_remove_square(occupancies, t);
            }
            occupancies = occupancies ^ next_attacker.0;

            // a diagonal mover (pawn, bishop or queen) can reveal diagonal
            // sliders behind it
            proof {
                lemma_u8_ops(attacker_type.0, 0);
            }
            if attacker_type.0 & 1 == 0 {
                attacking = attacking | lookup.bishop_attacks(target, Bitboard(occupancies)).0
                    & diagonal;
            }
            // an orthogonal mover (rook or queen, or the king) can reveal
            // orthogonal sliders behind it
            if attacker_type.0 >= PieceType::ROOK {
                attacking = attacking | lookup.rook_attacks(target, Bitboard(occupancies)).0
                    & orthogonal;
            }
            let revealed = attacking;
            attacking = revealed & occupancies;
            proof {
                lemma_u64_ops(revealed, occupancies, 0);
            }

            us = us.flip();
            see_value = see_value + attacker_type.see_bonus() as i32;

            // if we're down material even if we recapture
            if see_value < 0 {
                // a king recapturing into remaining attacking moved into
                // check, so the other side wins after all
                if attacker_type.0 == PieceType::KING && attacking & self.side_any(us).0 != 0 {
                    us = us.flip();
                }
                break ;
            }
            // `- 1` so that 0 is properly negated
            see_value = -see_value - 1;
        }
        // whether we are not the loser
        self.side_to_move().0 != us.0
    }
}

} // verus!
