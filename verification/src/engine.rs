//! What the engine keeps between searches (position, parameters, repetition
//! stack, transposition table, history and correction tables, network), how a
//! position is set up from a FEN and UCI moves, and the main search thread's part
//! of a search.

use vstd::prelude::*;
use std::sync::Arc;
use std::sync::atomic::{AtomicBool, AtomicU64};
use crate::chess::{BoardState, ChessMove};
use crate::context::{SearchStats, build_search_context};
use crate::corrhist::{CorrectionHistoryTable, MaterialKey, PawnKey};
use crate::history::HistoryTables;
use crate::network::Network;
use crate::nnue_state::NNUEState;
use crate::ordering::MoveOrdering;
use crate::params::{Params, params_ok};
use crate::position::{Position, read_position_from_fen, spec_from_fen, spec_play, spec_uci_to_move, spec_zobrist,
    start_state, uci_to_move};
use crate::search::{SearchObserver, search, result_bound, is_mate, has_mate_in_one};
use crate::flags::set_flag;
use crate::text::views;
use crate::tt::TranspositionTable;
use crate::types::{MATE_SCORE, MIN_INF, MAX_INF};

verus! {

/// Engine state that lives across searches.
pub struct Engine<'a> {
    pub position: Position,
    pub params: Params,
    pub repetition_stack: Vec<u64>,
    pub tt: TranspositionTable,
    pub corrhist_pawn: CorrectionHistoryTable<PawnKey>,
    pub corrhist_material: CorrectionHistoryTable<MaterialKey>,
    pub history_tables: HistoryTables,
    pub net: &'a Network,
}

/// The positions along a game from `s` through the UCI moves `moves[0 .. n]`, or
/// `None` if one of them is malformed or illegal where it is played.
pub open spec fn line_states(s: BoardState, moves: Seq<Seq<char>>, n: int) -> Option<Seq<BoardState>>
    decreases n,
{
    if n <= 0 {
        Some(seq![s])
    } else {
        match line_states(s, moves, n - 1) {
            Some(st) => match spec_uci_to_move(st.last(), moves[n - 1]) {
                Some(m) => Some(st.push(spec_play(st.last(), m))),
                None => None,
            },
            None => None,
        }
    }
}

/// The position a `position` command starts from: its FEN, or the initial
/// position.
pub open spec fn setup_start(fen: Option<Seq<char>>) -> Option<BoardState> {
    match fen {
        Some(f) => spec_from_fen(f),
        None => Some(start_state()),
    }
}

impl<'a> Engine<'a> {
    /// Every part is valid.
    pub open spec fn wf(&self) -> bool {
        &&& self.position@.wf()
        &&& params_ok(self.params)
        &&& self.tt.wf()
        &&& self.corrhist_pawn.wf()
        &&& self.corrhist_material.wf()
        &&& self.history_tables.wf()
        &&& self.net.wf()
    }

    /// A fresh engine: the initial position and its hash on the repetition stack,
    /// default parameters, a table of `ttsize` MiB, empty histories.
    pub fn new(ttsize: usize, net: &'a Network) -> (r: Engine<'a>)
        requires
            ttsize * 1024 * 1024 <= usize::MAX,
            net.wf(),
        ensures
            r.wf(),
            r.position@ == start_state(),
            r.params == Params::spec_default(),
            r.repetition_stack@ == seq![spec_zobrist(start_state())],
            r.net == net,
    {
        let position = Position::new();
        let mut repetition_stack: Vec<u64> = Vec::new();
        repetition_stack.push(position.zobrist());
        Engine {
            position,
            params: Params::default(),
            repetition_stack,
            tt: TranspositionTable::new(ttsize),
            corrhist_pawn: CorrectionHistoryTable::new(),
            corrhist_material: CorrectionHistoryTable::new(),
            history_tables: HistoryTables::new(),
            net,
        }
    }

    /// Restarts the repetition stack with the current position.
    pub fn init_history(&mut self)
        ensures
            final(self).repetition_stack@ == seq![spec_zobrist(old(self).position@)],
            final(self).position == old(self).position,
            final(self).params == old(self).params,
            final(self).tt == old(self).tt,
            final(self).corrhist_pawn == old(self).corrhist_pawn,
            final(self).corrhist_material == old(self).corrhist_material,
            final(self).history_tables == old(self).history_tables,
            final(self).net == old(self).net,
    {
        self.repetition_stack.clear();
        self.push_history();
    }

    /// Pushes the current position's hash on the repetition stack.
    pub fn push_history(&mut self)
        ensures
            final(self).repetition_stack@ == old(self).repetition_stack@.push(spec_zobrist(old(self).position@)),
            final(self).position == old(self).position,
            final(self).params == old(self).params,
            final(self).tt == old(self).tt,
            final(self).corrhist_pawn == old(self).corrhist_pawn,
            final(self).corrhist_material == old(self).corrhist_material,
            final(self).history_tables == old(self).history_tables,
            final(self).net == old(self).net,
    {
        let hash = self.position.zobrist();
        self.repetition_stack.push(hash);
    }

    /// Replaces the table with an empty one of `mb` MiB.
    pub fn resize_tt(&mut self, mb: usize)
        requires
            mb * 1024 * 1024 <= usize::MAX,
        ensures
            final(self).tt.wf(),
            final(self).tt.spec_age() == 0,
            final(self).tt.slots().len() >= mb * 1024 * 1024 / 16,
            forall|i: int| 0 <= i < final(self).tt.slots().len() ==> final(self).tt.slots()[i].key_word() == 0
                && final(self).tt.slots()[i].data_word() == 0,
            final(self).position == old(self).position,
            final(self).params == old(self).params,
            final(self).repetition_stack@ == old(self).repetition_stack@,
            final(self).corrhist_pawn == old(self).corrhist_pawn,
            final(self).corrhist_material == old(self).corrhist_material,
            final(self).history_tables == old(self).history_tables,
            final(self).net == old(self).net,
    {
        self.tt = TranspositionTable::new(mb);
    }

    /// Sets up the position of a `position` command: the FEN (or the initial
    /// position), then each UCI move in turn, with every position's hash on the
    /// repetition stack. Returns false, leaving a partly set up game, when the FEN
    /// or a move is not valid where it is played.
    pub fn set_position(&mut self, fen: Option<&str>, moves: &Vec<String>) -> (ok: bool)
        requires
            old(self).wf(),
        ensures
            final(self).wf(),
            ok <==> ({
                let f = match fen { Some(t) => Some(t@), None => None };
                setup_start(f) is Some && line_states(setup_start(f)->0, views(moves@), moves@.len() as int) is Some
            }),
            ok ==> ({
                let f = match fen { Some(t) => Some(t@), None => None };
                let st = line_states(setup_start(f)->0, views(moves@), moves@.len() as int)->0;
                &&& final(self).position@ == st.last()
                &&& final(self).repetition_stack@ == st.map_values(|s: BoardState| spec_zobrist(s))
            }),
            final(self).params == old(self).params,
            final(self).tt == old(self).tt,
            final(self).net == old(self).net,
    {
        let ghost f = match fen {
            Some(t) => Some(t@),
            None => None,
        };
        let start = match fen {
            Some(t) => match read_position_from_fen(t) {
                Some(p) => p,
                None => {
                    return false;
                },
            },
            None => Position::new(),
        };
        self.position = start;
        self.init_history();
        let ghost mv = views(moves@);
        let mut i: usize = 0;
        proof {
            assert(seq![self.position@].map_values(|s: BoardState| spec_zobrist(s)) =~= seq![spec_zobrist(
                self.position@,
            )]);
        }
        while i < moves.len()
            invariant
                self.wf(),
                mv == views(moves@),
                f == (match fen { Some(t) => Some(t@), None => None }),
                setup_start(f) is Some,
                i <= moves@.len(),
                line_states(setup_start(f)->0, mv, i as int) is Some,
                self.position@ == line_states(setup_start(f)->0, mv, i as int)->0.last(),
                self.repetition_stack@ == line_states(setup_start(f)->0, mv, i as int)->0.map_values(
                    |s: BoardState| spec_zobrist(s),
                ),
                self.params == old(self).params,
                self.tt == old(self).tt,
                self.net == old(self).net,
            decreases moves@.len() - i,
        {
            let ghost st = line_states(setup_start(f)->0, mv, i as int)->0;
            proof {
                assert(mv[i as int] == moves@[i as int]@);
            }
            let m = match uci_to_move(&self.position, moves[i].as_str()) {
                Some(m) => m,
                None => {
                    proof {
                        assert(line_states(setup_start(f)->0, mv, i + 1) is None);
                        lemma_line_states_none(setup_start(f)->0, mv, i + 1, moves@.len() as int);
                    }
                    return false;
                },
            };
            self.position = self.position.play(m);
            self.push_history();
            proof {
                let st2 = st.push(spec_play(st.last(), m));
                assert(line_states(setup_start(f)->0, mv, i + 1) == Some(st2));
                assert(st2.map_values(|s: BoardState| spec_zobrist(s)) =~= st.map_values(
                    |s: BoardState| spec_zobrist(s),
                ).push(spec_zobrist(st2.last())));
            }
            i += 1;
        }
        true
    }

    /// Starts a new game: the initial position, an empty repetition stack, and
    /// cleared table and histories.
    pub fn new_game(&mut self)
        requires
            old(self).wf(),
        ensures
            final(self).wf(),
            final(self).position@ == start_state(),
            final(self).repetition_stack@.len() == 0,
            final(self).tt.spec_age() == 0,
            forall|i: int| 0 <= i < final(self).tt.slots().len() ==> final(self).tt.slots()[i].key_word() == 0
                && final(self).tt.slots()[i].data_word() == 0,
            forall|i: int| 0 <= i < final(self).history_tables.quiet.entries().len()
                ==> final(self).history_tables.quiet.entries()[i] == 0,
            forall|i: int| 0 <= i < final(self).history_tables.noisy.entries().len()
                ==> final(self).history_tables.noisy.entries()[i] == 0,
            forall|i: int| 0 <= i < final(self).history_tables.continuation.entries().len()
                ==> final(self).history_tables.continuation.entries()[i] == 0,
            forall|i: int| 0 <= i < 2 * crate::corrhist::SIZE ==> final(self).corrhist_pawn.entries()[i] == 0
                && final(self).corrhist_material.entries()[i] == 0,
            final(self).params == old(self).params,
            final(self).net == old(self).net,
    {
        self.position = Position::new();
        self.tt.clear();
        self.repetition_stack.clear();
        self.corrhist_pawn.clear();
        self.corrhist_material.clear();
        self.history_tables.clear();
    }
}

/// Once a line of moves breaks, every longer line is broken too.
proof fn lemma_line_states_none(s: BoardState, moves: Seq<Seq<char>>, i: int, n: int)
    requires
        0 <= i <= n,
        line_states(s, moves, i) is None,
    ensures
        line_states(s, moves, n) is None,
    decreases n - i,
{
    if i < n {
        lemma_line_states_none(s, moves, i + 1, n);
    }
}

/// The search threads.
pub struct Threads;

impl Threads {
    /// Depth limit of helper thread `thread_id` (from 1): `max_depth + 3 % thread_id`,
    /// which staggers the helpers by 0 to 3 plies.
    pub fn helper_depth(max_depth: usize, thread_id: usize) -> (r: usize)
        requires
            thread_id >= 1,
            max_depth + 3 <= usize::MAX,
        ensures
            r == max_depth + 3usize % thread_id,
    {
        let extra: usize = 3 % thread_id;
        assert(extra <= 3) by (nonlinear_arith)
            requires
                extra == 3usize % thread_id,
                thread_id >= 1,
        ;
        max_depth + extra
    }

    /// The main thread's part of a search: searches `pos` with the engine's table,
    /// history tables (kept for the next search), parameters and network, `max_depth`, `max_nodes` and `time_limit_ms`, on the
    /// shared stop flag and node counter, then raises the stop flag (so that helper
    /// threads on the same flag end) and keeps the table for the next search.
    /// Returns the score, best move (legal in `pos`), the principal variation from
    /// the table, and the search's counters.
    pub fn main_search<O: SearchObserver>(
        pos: &Position,
        engine: &mut Engine,
        ordering: &MoveOrdering,
        max_depth: usize,
        max_nodes: u64,
        time_limit_ms: u64,
        stop: Arc<AtomicBool>,
        node_count: Arc<AtomicU64>,
        lmr_table: &Vec<u8>,
        observer: &mut O,
    ) -> (r: (i32, Option<ChessMove>, Vec<Option<ChessMove>>, SearchStats))
        requires
            old(engine).wf(),
            pos@.wf(),
            ordering.wf(),
            lmr_table@.len() == 64 * 64,
            time_limit_ms <= 1000000000000,
            max_depth >= 1,
            crate::position::spec_legal_moves(pos@).len() > 0,
        ensures
            final(engine).wf(),
            final(engine).position == old(engine).position,
            final(engine).params == old(engine).params,
            final(engine).repetition_stack@ == old(engine).repetition_stack@,
            final(engine).net == old(engine).net,
            r.1 matches Some(m) ==> crate::position::spec_legal_moves(pos@).contains(m),
            -result_bound(0) <= r.0 <= result_bound(0) || r.0 == MIN_INF,
            final(engine).tt.spec_age() == (old(engine).tt.spec_age() + 1) % 32,
            is_mate(pos@) ==> r.0 == -MATE_SCORE || r.0 == MIN_INF,
            max_depth < old(engine).params.aspw_min_depth && !is_mate(pos@) && MIN_INF < r.0 < MAX_INF ==> r.1 is Some,
            r.3.completed_depth <= max_depth,
            r.3.completed_depth == 0 ==> r.0 == MIN_INF && r.1 is None,
            r.3.completed_depth >= 1 && max_depth < old(engine).params.aspw_min_depth && has_mate_in_one(pos@)
                ==> r.0 >= MATE_SCORE - 1,
    {
        let mut tt = TranspositionTable::new(0);
        std::mem::swap(&mut tt, &mut engine.tt);
        let network: &Network = engine.net;
        let mut ctx = build_search_context(
            tt,
            engine.params,
            ordering.clone(),
            network,
            engine.repetition_stack.clone(),
            NNUEState::new(pos.state(), network),
            stop,
            node_count,
            true,
            Some(time_limit_ms),
            lmr_table.clone(),
        );
        assert(ctx.excluded_move@[0] is None);
        ctx.node_limit = max_nodes;
        std::mem::swap(&mut ctx.history, &mut engine.history_tables.quiet.table);
        std::mem::swap(&mut ctx.capture_history, &mut engine.history_tables.noisy.table);
        std::mem::swap(&mut ctx.continuation_history, &mut engine.history_tables.continuation.table);
        let (score, best, pv) = search(pos, &mut ctx, max_depth, time_limit_ms, observer);
        set_flag(&*ctx.stop, true);
        std::mem::swap(&mut ctx.tt, &mut engine.tt);
        std::mem::swap(&mut ctx.history, &mut engine.history_tables.quiet.table);
        std::mem::swap(&mut ctx.capture_history, &mut engine.history_tables.noisy.table);
        std::mem::swap(&mut ctx.continuation_history, &mut engine.history_tables.continuation.table);
        (score, best, pv, ctx.stats)
    }
}

} // verus!
