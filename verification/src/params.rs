//! Search parameters. The three parameters that are real numbers (the two late
//! move reduction constants and the aspiration widening factor) are held in units
//! of 1/10000, the unit in which `setoption` sets them.

use vstd::prelude::*;
use crate::text::{eq_lowercase, eq_text_lowercase, parse_int, parse_i32};

verus! {

/// All tunable search parameters.
#[derive(Clone, Copy, PartialEq, Eq, Debug, Structural)]
pub struct Params {
    pub raz_max_depth: i32,
    pub raz_thr: i32,
    pub raz_improving_margin: i32,
    pub nmp_margin: i32,
    pub nmp_scaling: i32,
    pub nmp_improving_scaling: i32,
    pub nmp_min_depth: i32,
    pub nmp_base_reduction: i32,
    pub nmp_reduction_scaling: i32,
    pub nmp_verif_depth: i32,
    pub snmp_scaling: i32,
    pub lmr_min_searches: i32,
    pub lmr_min_depth: i32,
    /// In units of 1/10000.
    pub lmr_red_constant: i32,
    /// In units of 1/10000.
    pub lmr_red_scaling: i32,
    pub lmr_history_divisor: i32,
    pub lmr_see_thr: i32,
    pub aspw_min_depth: i32,
    pub aspw_window_size: i32,
    /// In units of 1/10000.
    pub aspw_widening_factor: i32,
    pub fp_base: i32,
    pub fp_scaling: i32,
    pub fp_max_depth: i32,
    pub fp_improving_margin: i32,
    pub fp_min_moves_searched: i32,
    pub cont_hist_scaling: i32,
    pub cont_hist_base: i32,
    pub cont_hist_malus_scaling: i32,
    pub lmp_base: i32,
    pub lmp_lin_scaling: i32,
    pub lmp_quad_scaling: i32,
    pub lmp_max_depth: i32,
    pub rfp_scaling: i32,
    pub rfp_improving_scaling: i32,
    pub rfp_max_depth: i32,
    pub hpp_quiet_scaling: i32,
    pub hpp_tactical_scaling: i32,
    pub hpp_max_depth: i32,
    pub iir_min_depth: i32,
    pub se_dext_margin: i32,
    pub se_scaling: i32,
    pub se_depth_ok: i32,
    pub se_min_depth: i32,
    pub se_text_margin: i32,
    pub se_max_nr_dext: i32,
    pub hist_prune_margin: i32,
    pub hist_prune_depth: i32,
    pub pc_beta_margin: i32,
    pub pc_depth_divisor: i32,
    pub pc_min_depth: i32,
    pub pc_improving_margin: i32,
    pub pc_see_thr: i32,
}

impl Params {
    /// The tuned defaults.
    pub open spec fn spec_default() -> Params {
        Params {
            raz_max_depth: 7,
            raz_thr: 204,
            raz_improving_margin: 48,
            nmp_margin: 180,
            nmp_scaling: 8,
            nmp_improving_scaling: -87i32,
            nmp_min_depth: 5,
            nmp_base_reduction: 4,
            nmp_reduction_scaling: 9,
            nmp_verif_depth: 8,
            snmp_scaling: 69,
            lmr_min_searches: 4,
            lmr_min_depth: 2,
            lmr_red_constant: 6016,
            lmr_red_scaling: 20328,
            lmr_history_divisor: 8370,
            lmr_see_thr: 7,
            aspw_min_depth: 7,
            aspw_window_size: 36,
            aspw_widening_factor: 22421,
            fp_base: 28,
            fp_scaling: 76,
            fp_max_depth: 11,
            fp_improving_margin: 1,
            fp_min_moves_searched: 5,
            cont_hist_scaling: 500,
            cont_hist_base: 177,
            cont_hist_malus_scaling: 1,
            lmp_base: 8,
            lmp_lin_scaling: 2,
            lmp_quad_scaling: 1,
            lmp_max_depth: 3,
            rfp_scaling: 69,
            rfp_improving_scaling: 122,
            rfp_max_depth: 15,
            hpp_quiet_scaling: 23,
            hpp_tactical_scaling: 36,
            hpp_max_depth: 6,
            iir_min_depth: 4,
            se_dext_margin: 11,
            se_scaling: 3,
            se_depth_ok: 7,
            se_min_depth: 10,
            se_text_margin: 145,
            se_max_nr_dext: 8,
            hist_prune_margin: 124,
            hist_prune_depth: 3,
            pc_beta_margin: 345,
            pc_depth_divisor: 35,
            pc_min_depth: 4,
            pc_improving_margin: 100,
            pc_see_thr: 130,
        }
    }

    /// The tuned defaults.
    pub fn default() -> (r: Params)
        ensures
            r == Params::spec_default(),
    {
        Params {
            raz_max_depth: 7,
            raz_thr: 204,
            raz_improving_margin: 48,
            nmp_margin: 180,
            nmp_scaling: 8,
            nmp_improving_scaling: -87,
            nmp_min_depth: 5,
            nmp_base_reduction: 4,
            nmp_reduction_scaling: 9,
            nmp_verif_depth: 8,
            snmp_scaling: 69,
            lmr_min_searches: 4,
            lmr_min_depth: 2,
            lmr_red_constant: 6016,
            lmr_red_scaling: 20328,
            lmr_history_divisor: 8370,
            lmr_see_thr: 7,
            aspw_min_depth: 7,
            aspw_window_size: 36,
            aspw_widening_factor: 22421,
            fp_base: 28,
            fp_scaling: 76,
            fp_max_depth: 11,
            fp_improving_margin: 1,
            fp_min_moves_searched: 5,
            cont_hist_scaling: 500,
            cont_hist_base: 177,
            cont_hist_malus_scaling: 1,
            lmp_base: 8,
            lmp_lin_scaling: 2,
            lmp_quad_scaling: 1,
            lmp_max_depth: 3,
            rfp_scaling: 69,
            rfp_improving_scaling: 122,
            rfp_max_depth: 15,
            hpp_quiet_scaling: 23,
            hpp_tactical_scaling: 36,
            hpp_max_depth: 6,
            iir_min_depth: 4,
            se_dext_margin: 11,
            se_scaling: 3,
            se_depth_ok: 7,
            se_min_depth: 10,
            se_text_margin: 145,
            se_max_nr_dext: 8,
            hist_prune_margin: 124,
            hist_prune_depth: 3,
            pc_beta_margin: 345,
            pc_depth_divisor: 35,
            pc_min_depth: 4,
            pc_improving_margin: 100,
            pc_see_thr: 130,
        }
    }
}

/// Largest magnitude a parameter may have.
pub const PARAM_LIMIT: i32 = 100000;

/// Parameters the search can use without its arithmetic leaving `i32`: every value
/// within `PARAM_LIMIT`, the scalings used as unsigned counts non-negative, the
/// divisors non-zero, and singular extensions and internal iterative reductions only from depth 2 on.
pub open spec fn params_ok(p: Params) -> bool {
    &&& -PARAM_LIMIT <= p.raz_max_depth <= PARAM_LIMIT
    &&& -PARAM_LIMIT <= p.raz_thr <= PARAM_LIMIT
    &&& -PARAM_LIMIT <= p.nmp_margin <= PARAM_LIMIT
    &&& -PARAM_LIMIT <= p.nmp_scaling <= PARAM_LIMIT
    &&& -PARAM_LIMIT <= p.nmp_improving_scaling <= PARAM_LIMIT
    &&& 0 <= p.nmp_base_reduction <= PARAM_LIMIT
    &&& 1 <= p.nmp_reduction_scaling <= PARAM_LIMIT
    &&& -PARAM_LIMIT <= p.snmp_scaling <= PARAM_LIMIT
    &&& -PARAM_LIMIT <= p.lmr_history_divisor <= PARAM_LIMIT
    &&& p.lmr_history_divisor != 0
    &&& -PARAM_LIMIT <= p.aspw_window_size <= PARAM_LIMIT
    &&& -PARAM_LIMIT <= p.aspw_widening_factor <= PARAM_LIMIT
    &&& -PARAM_LIMIT <= p.fp_base <= PARAM_LIMIT
    &&& -PARAM_LIMIT <= p.fp_scaling <= PARAM_LIMIT
    &&& -PARAM_LIMIT <= p.fp_improving_margin <= PARAM_LIMIT
    &&& -PARAM_LIMIT <= p.fp_min_moves_searched <= PARAM_LIMIT
    &&& -PARAM_LIMIT <= p.cont_hist_scaling <= PARAM_LIMIT
    &&& -PARAM_LIMIT <= p.cont_hist_base <= PARAM_LIMIT
    &&& -PARAM_LIMIT <= p.cont_hist_malus_scaling <= PARAM_LIMIT
    &&& p.cont_hist_malus_scaling != 0
    &&& -PARAM_LIMIT <= p.lmp_base <= PARAM_LIMIT
    &&& -PARAM_LIMIT <= p.lmp_lin_scaling <= PARAM_LIMIT
    &&& -PARAM_LIMIT <= p.lmp_quad_scaling <= PARAM_LIMIT
    &&& 0 <= p.rfp_scaling <= PARAM_LIMIT
    &&& -PARAM_LIMIT <= p.rfp_improving_scaling <= PARAM_LIMIT
    &&& -PARAM_LIMIT <= p.hpp_tactical_scaling <= PARAM_LIMIT
    &&& 0 <= p.se_depth_ok <= PARAM_LIMIT
    &&& 2 <= p.se_min_depth <= PARAM_LIMIT
    &&& 2 <= p.iir_min_depth <= PARAM_LIMIT
    &&& -PARAM_LIMIT <= p.se_scaling <= PARAM_LIMIT
    &&& -PARAM_LIMIT <= p.se_dext_margin <= PARAM_LIMIT
    &&& -PARAM_LIMIT <= p.se_text_margin <= PARAM_LIMIT
    &&& -PARAM_LIMIT <= p.se_max_nr_dext <= PARAM_LIMIT
}

/// Whether the search can use these parameters (see `params_ok`).
pub fn params_usable(p: &Params) -> (r: bool)
    ensures
        r == params_ok(*p),
{
    -PARAM_LIMIT <= p.raz_max_depth && p.raz_max_depth <= PARAM_LIMIT
        && -PARAM_LIMIT <= p.raz_thr && p.raz_thr <= PARAM_LIMIT
        && -PARAM_LIMIT <= p.nmp_margin && p.nmp_margin <= PARAM_LIMIT
        && -PARAM_LIMIT <= p.nmp_scaling && p.nmp_scaling <= PARAM_LIMIT
        && -PARAM_LIMIT <= p.nmp_improving_scaling && p.nmp_improving_scaling <= PARAM_LIMIT
        && 0 <= p.nmp_base_reduction && p.nmp_base_reduction <= PARAM_LIMIT
        && 1 <= p.nmp_reduction_scaling && p.nmp_reduction_scaling <= PARAM_LIMIT
        && -PARAM_LIMIT <= p.snmp_scaling && p.snmp_scaling <= PARAM_LIMIT
        && -PARAM_LIMIT <= p.lmr_history_divisor && p.lmr_history_divisor <= PARAM_LIMIT
        && p.lmr_history_divisor != 0
        && -PARAM_LIMIT <= p.aspw_window_size && p.aspw_window_size <= PARAM_LIMIT
        && -PARAM_LIMIT <= p.aspw_widening_factor && p.aspw_widening_factor <= PARAM_LIMIT
        && -PARAM_LIMIT <= p.fp_base && p.fp_base <= PARAM_LIMIT
        && -PARAM_LIMIT <= p.fp_scaling && p.fp_scaling <= PARAM_LIMIT
        && -PARAM_LIMIT <= p.fp_improving_margin && p.fp_improving_margin <= PARAM_LIMIT
        && -PARAM_LIMIT <= p.fp_min_moves_searched && p.fp_min_moves_searched <= PARAM_LIMIT
        && -PARAM_LIMIT <= p.cont_hist_scaling && p.cont_hist_scaling <= PARAM_LIMIT
        && -PARAM_LIMIT <= p.cont_hist_base && p.cont_hist_base <= PARAM_LIMIT
        && -PARAM_LIMIT <= p.cont_hist_malus_scaling && p.cont_hist_malus_scaling <= PARAM_LIMIT
        && p.cont_hist_malus_scaling != 0
        && -PARAM_LIMIT <= p.lmp_base && p.lmp_base <= PARAM_LIMIT
        && -PARAM_LIMIT <= p.lmp_lin_scaling && p.lmp_lin_scaling <= PARAM_LIMIT
        && -PARAM_LIMIT <= p.lmp_quad_scaling && p.lmp_quad_scaling <= PARAM_LIMIT
        && 0 <= p.rfp_scaling && p.rfp_scaling <= PARAM_LIMIT
        && -PARAM_LIMIT <= p.rfp_improving_scaling && p.rfp_improving_scaling <= PARAM_LIMIT
        && -PARAM_LIMIT <= p.hpp_tactical_scaling && p.hpp_tactical_scaling <= PARAM_LIMIT
        && 0 <= p.se_depth_ok && p.se_depth_ok <= PARAM_LIMIT
        && 2 <= p.se_min_depth && p.se_min_depth <= PARAM_LIMIT
        && 2 <= p.iir_min_depth && p.iir_min_depth <= PARAM_LIMIT
        && -PARAM_LIMIT <= p.se_scaling && p.se_scaling <= PARAM_LIMIT
        && -PARAM_LIMIT <= p.se_dext_margin && p.se_dext_margin <= PARAM_LIMIT
        && -PARAM_LIMIT <= p.se_text_margin && p.se_text_margin <= PARAM_LIMIT
        && -PARAM_LIMIT <= p.se_max_nr_dext && p.se_max_nr_dext <= PARAM_LIMIT
}

/// Parameters after `setoption name <name> value <value>`: a known parameter name
/// (once lower-cased) with an `i32` value sets that parameter (the three real-valued
/// ones in units of 1/10000); anything else leaves the parameters unchanged.
pub open spec fn spec_set_param(p: Params, name: Seq<char>, value: Seq<char>) -> Params {
    match parse_int(value, true, i32::MIN as int, i32::MAX as int) {
        None => p,
        Some(v) => {
            let x = v as i32;
            if eq_lowercase(name, "raz_max_depth"@) {
                Params { raz_max_depth: x, ..p }
            } else if eq_lowercase(name, "raz_thr"@) {
                Params { raz_thr: x, ..p }
            } else if eq_lowercase(name, "raz_improving_margin"@) {
                Params { raz_improving_margin: x, ..p }
            } else if eq_lowercase(name, "nmp_margin"@) {
                Params { nmp_margin: x, ..p }
            } else if eq_lowercase(name, "nmp_scaling"@) {
                Params { nmp_scaling: x, ..p }
            } else if eq_lowercase(name, "nmp_improving_scaling"@) {
                Params { nmp_improving_scaling: x, ..p }
            } else if eq_lowercase(name, "nmp_min_depth"@) {
                Params { nmp_min_depth: x, ..p }
            } else if eq_lowercase(name, "nmp_base_reduction"@) {
                Params { nmp_base_reduction: x, ..p }
            } else if eq_lowercase(name, "nmp_reduction_scaling"@) {
                Params { nmp_reduction_scaling: x, ..p }
            } else if eq_lowercase(name, "nmp_verif_depth"@) {
                Params { nmp_verif_depth: x, ..p }
            } else if eq_lowercase(name, "snmp_scaling"@) {
                Params { snmp_scaling: x, ..p }
            } else if eq_lowercase(name, "lmr_min_searches"@) {
                Params { lmr_min_searches: x, ..p }
            } else if eq_lowercase(name, "lmr_min_depth"@) {
                Params { lmr_min_depth: x, ..p }
            } else if eq_lowercase(name, "lmr_history_divisor"@) {
                Params { lmr_history_divisor: x, ..p }
            } else if eq_lowercase(name, "lmr_see_thr"@) {
                Params { lmr_see_thr: x, ..p }
            } else if eq_lowercase(name, "aspw_min_depth"@) {
                Params { aspw_min_depth: x, ..p }
            } else if eq_lowercase(name, "aspw_window_size"@) {
                Params { aspw_window_size: x, ..p }
            } else if eq_lowercase(name, "fp_base"@) {
                Params { fp_base: x, ..p }
            } else if eq_lowercase(name, "fp_scaling"@) {
                Params { fp_scaling: x, ..p }
            } else if eq_lowercase(name, "fp_max_depth"@) {
                Params { fp_max_depth: x, ..p }
            } else if eq_lowercase(name, "fp_improving_margin"@) {
                Params { fp_improving_margin: x, ..p }
            } else if eq_lowercase(name, "fp_min_moves_searched"@) {
                Params { fp_min_moves_searched: x, ..p }
            } else if eq_lowercase(name, "rfp_scaling"@) {
                Params { rfp_scaling: x, ..p }
            } else if eq_lowercase(name, "rfp_improving_scaling"@) {
                Params { rfp_improving_scaling: x, ..p }
            } else if eq_lowercase(name, "rfp_max_depth"@) {
                Params { rfp_max_depth: x, ..p }
            } else if eq_lowercase(name, "lmp_base"@) {
                Params { lmp_base: x, ..p }
            } else if eq_lowercase(name, "lmp_lin_scaling"@) {
                Params { lmp_lin_scaling: x, ..p }
            } else if eq_lowercase(name, "lmp_quad_scaling"@) {
                Params { lmp_quad_scaling: x, ..p }
            } else if eq_lowercase(name, "lmp_max_depth"@) {
                Params { lmp_max_depth: x, ..p }
            } else if eq_lowercase(name, "cont_hist_scaling"@) {
                Params { cont_hist_scaling: x, ..p }
            } else if eq_lowercase(name, "cont_hist_base"@) {
                Params { cont_hist_base: x, ..p }
            } else if eq_lowercase(name, "cont_hist_malus_scaling"@) {
                Params { cont_hist_malus_scaling: x, ..p }
            } else if eq_lowercase(name, "hpp_quiet_scaling"@) {
                Params { hpp_quiet_scaling: x, ..p }
            } else if eq_lowercase(name, "hpp_tactical_scaling"@) {
                Params { hpp_tactical_scaling: x, ..p }
            } else if eq_lowercase(name, "iir_min_depth"@) {
                Params { iir_min_depth: x, ..p }
            } else if eq_lowercase(name, "se_dext_margin"@) {
                Params { se_dext_margin: x, ..p }
            } else if eq_lowercase(name, "se_scaling"@) {
                Params { se_scaling: x, ..p }
            } else if eq_lowercase(name, "se_depth_ok"@) {
                Params { se_depth_ok: x, ..p }
            } else if eq_lowercase(name, "se_min_depth"@) {
                Params { se_min_depth: x, ..p }
            } else if eq_lowercase(name, "se_text_margin"@) {
                Params { se_text_margin: x, ..p }
            } else if eq_lowercase(name, "se_max_nr_dext"@) {
                Params { se_max_nr_dext: x, ..p }
            } else if eq_lowercase(name, "hist_prune_margin"@) {
                Params { hist_prune_margin: x, ..p }
            } else if eq_lowercase(name, "hist_prune_depth"@) {
                Params { hist_prune_depth: x, ..p }
            } else if eq_lowercase(name, "pc_beta_margin"@) {
                Params { pc_beta_margin: x, ..p }
            } else if eq_lowercase(name, "pc_depth_divisor"@) {
                Params { pc_depth_divisor: x, ..p }
            } else if eq_lowercase(name, "pc_min_depth"@) {
                Params { pc_min_depth: x, ..p }
            } else if eq_lowercase(name, "pc_improving_margin"@) {
                Params { pc_improving_margin: x, ..p }
            } else if eq_lowercase(name, "pc_see_thr"@) {
                Params { pc_see_thr: x, ..p }
            } else if eq_lowercase(name, "lmr_red_constant"@) {
                Params { lmr_red_constant: x, ..p }
            } else if eq_lowercase(name, "lmr_red_scaling"@) {
                Params { lmr_red_scaling: x, ..p }
            } else if eq_lowercase(name, "aspw_widening_factor"@) {
                Params { aspw_widening_factor: x, ..p }
            } else {
                p
            }
        },
    }
}

/// Sets a parameter by name from a `setoption` value (see `spec_set_param`).
pub fn set_param(params: &mut Params, name: &str, value: &str)
    ensures
        *final(params) == spec_set_param(*old(params), name@, value@),
{
    let x = match parse_i32(value) {
        Some(x) => x,
        None => {
            return;
        },
    };
    if eq_text_lowercase(name, "raz_max_depth") {
        params.raz_max_depth = x;
    } else if eq_text_lowercase(name, "raz_thr") {
        params.raz_thr = x;
    } else if eq_text_lowercase(name, "raz_improving_margin") {
        params.raz_improving_margin = x;
    } else if eq_text_lowercase(name, "nmp_margin") {
        params.nmp_margin = x;
    } else if eq_text_lowercase(name, "nmp_scaling") {
        params.nmp_scaling = x;
    } else if eq_text_lowercase(name, "nmp_improving_scaling") {
        params.nmp_improving_scaling = x;
    } else if eq_text_lowercase(name, "nmp_min_depth") {
        params.nmp_min_depth = x;
    } else if eq_text_lowercase(name, "nmp_base_reduction") {
        params.nmp_base_reduction = x;
    } else if eq_text_lowercase(name, "nmp_reduction_scaling") {
        params.nmp_reduction_scaling = x;
    } else if eq_text_lowercase(name, "nmp_verif_depth") {
        params.nmp_verif_depth = x;
    } else if eq_text_lowercase(name, "snmp_scaling") {
        params.snmp_scaling = x;
    } else if eq_text_lowercase(name, "lmr_min_searches") {
        params.lmr_min_searches = x;
    } else if eq_text_lowercase(name, "lmr_min_depth") {
        params.lmr_min_depth = x;
    } else if eq_text_lowercase(name, "lmr_history_divisor") {
        params.lmr_history_divisor = x;
    } else if eq_text_lowercase(name, "lmr_see_thr") {
        params.lmr_see_thr = x;
    } else if eq_text_lowercase(name, "aspw_min_depth") {
        params.aspw_min_depth = x;
    } else if eq_text_lowercase(name, "aspw_window_size") {
        params.aspw_window_size = x;
    } else if eq_text_lowercase(name, "fp_base") {
        params.fp_base = x;
    } else if eq_text_lowercase(name, "fp_scaling") {
        params.fp_scaling = x;
    } else if eq_text_lowercase(name, "fp_max_depth") {
        params.fp_max_depth = x;
    } else if eq_text_lowercase(name, "fp_improving_margin") {
        params.fp_improving_margin = x;
    } else if eq_text_lowercase(name, "fp_min_moves_searched") {
        params.fp_min_moves_searched = x;
    } else if eq_text_lowercase(name, "rfp_scaling") {
        params.rfp_scaling = x;
    } else if eq_text_lowercase(name, "rfp_improving_scaling") {
        params.rfp_improving_scaling = x;
    } else if eq_text_lowercase(name, "rfp_max_depth") {
        params.rfp_max_depth = x;
    } else if eq_text_lowercase(name, "lmp_base") {
        params.lmp_base = x;
    } else if eq_text_lowercase(name, "lmp_lin_scaling") {
        params.lmp_lin_scaling = x;
    } else if eq_text_lowercase(name, "lmp_quad_scaling") {
        params.lmp_quad_scaling = x;
    } else if eq_text_lowercase(name, "lmp_max_depth") {
        params.lmp_max_depth = x;
    } else if eq_text_lowercase(name, "cont_hist_scaling") {
        params.cont_hist_scaling = x;
    } else if eq_text_lowercase(name, "cont_hist_base") {
        params.cont_hist_base = x;
    } else if eq_text_lowercase(name, "cont_hist_malus_scaling") {
        params.cont_hist_malus_scaling = x;
    } else if eq_text_lowercase(name, "hpp_quiet_scaling") {
        params.hpp_quiet_scaling = x;
    } else if eq_text_lowercase(name, "hpp_tactical_scaling") {
        params.hpp_tactical_scaling = x;
    } else if eq_text_lowercase(name, "iir_min_depth") {
        params.iir_min_depth = x;
    } else if eq_text_lowercase(name, "se_dext_margin") {
        params.se_dext_margin = x;
    } else if eq_text_lowercase(name, "se_scaling") {
        params.se_scaling = x;
    } else if eq_text_lowercase(name, "se_depth_ok") {
        params.se_depth_ok = x;
    } else if eq_text_lowercase(name, "se_min_depth") {
        params.se_min_depth = x;
    } else if eq_text_lowercase(name, "se_text_margin") {
        params.se_text_margin = x;
    } else if eq_text_lowercase(name, "se_max_nr_dext") {
        params.se_max_nr_dext = x;
    } else if eq_text_lowercase(name, "hist_prune_margin") {
        params.hist_prune_margin = x;
    } else if eq_text_lowercase(name, "hist_prune_depth") {
        params.hist_prune_depth = x;
    } else if eq_text_lowercase(name, "pc_beta_margin") {
        params.pc_beta_margin = x;
    } else if eq_text_lowercase(name, "pc_depth_divisor") {
        params.pc_depth_divisor = x;
    } else if eq_text_lowercase(name, "pc_min_depth") {
        params.pc_min_depth = x;
    } else if eq_text_lowercase(name, "pc_improving_margin") {
        params.pc_improving_margin = x;
    } else if eq_text_lowercase(name, "pc_see_thr") {
        params.pc_see_thr = x;
    } else if eq_text_lowercase(name, "lmr_red_constant") {
        params.lmr_red_constant = x;
    } else if eq_text_lowercase(name, "lmr_red_scaling") {
        params.lmr_red_scaling = x;
    } else if eq_text_lowercase(name, "aspw_widening_factor") {
        params.aspw_widening_factor = x;
    }
}

} // verus!
