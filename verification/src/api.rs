//! Plain data shapes of the read-only query surface, and the pagination
//! arithmetic the listing endpoints share.

use vstd::prelude::*;

verus! {

/// Query parameters of a paginated listing.
#[derive(Debug, Clone, Copy, PartialEq, Eq, Structural)]
pub struct PaginationParams {
    pub page: Option<u32>,
    pub limit: Option<u32>,
}

/// The envelope every endpoint answers with.
#[derive(Debug, Clone)]
pub struct ApiResponse<T> {
    pub success: bool,
    pub data: Option<T>,
    pub message: Option<String>,
    pub pagination: Option<PaginationInfo>,
}

/// Where a listing stands: the page served, the cap applied, the total
/// count and the page count.
#[derive(Debug, Clone, Copy, PartialEq, Eq, Structural)]
pub struct PaginationInfo {
    pub page: u32,
    pub limit: u32,
    pub total: u32,
    pub pages: u32,
}

impl PaginationInfo {
    /// Resolve requested paging against a total: the page defaults to 1,
    /// the limit defaults to 10 and is capped at 100, and the page count is
    /// the ceiling of total over limit.
    pub fn compute(params: &PaginationParams, total: u32) -> (r: PaginationInfo)
        ensures
            r.page == (match params.page {
                Some(p) => if p >= 1 { p as int } else { 1int },
                None => 1int,
            }),
            r.limit == (match params.limit {
                Some(l) => {
                    if l < 1 {
                        1int
                    } else if l > 100 {
                        100int
                    } else {
                        l as int
                    }
                }
                None => 10int,
            }),
            r.total == total,
            r.pages == (total as int + r.limit - 1) / (r.limit as int),
            r.limit >= 1,
    {
        let page: u32 = match params.page {
            Some(p) => {
                if p >= 1 {
                    p
                } else {
                    1
                }
            }
            None => 1,
        };
        let limit: u32 = match params.limit {
            Some(l) => {
                if l < 1 {
                    1
                } else if l > 100 {
                    100
                } else {
                    l
                }
            }
            None => 10,
        };
        proof {
            vstd::arithmetic::div_mod::lemma_fundamental_div_mod(total as int, limit as int);
            vstd::arithmetic::div_mod::lemma_mod_bound(total as int, limit as int);
            let ghost t = total as int;
            let ghost l = limit as int;
            let ghost q = t / l;
            let ghost m = t % l;
            if m == 0 {
                assert((t + l - 1) / l == q) by (nonlinear_arith)
                    requires t == l * q + m, m == 0, l >= 1, q >= 0;
            } else {
                assert((t + l - 1) / l == q + 1) by (nonlinear_arith)
                    requires t == l * q + m, 1 <= m < l, l >= 1, q >= 0;
                assert(q + 1 <= t) by (nonlinear_arith)
                    requires t == l * q + m, 1 <= m < l, l >= 2, q >= 0;
            }
        }
        let pages: u32 = (total / limit) + (if total % limit != 0 { 1 } else { 0 });
        PaginationInfo { page, limit, total, pages }
    }
}

/// The health endpoint's answer.
#[derive(Debug, Clone)]
pub struct HealthResponse {
    pub status: String,
    pub timestamp: String,
    pub version: String,
    pub uptime: String,
}

} // verus!
