//! The search engine: partitions the counter range `[0, max_counter)` into
//! contiguous chunks of `chunk_size`, scans each chunk in ascending counter
//! order, and returns the first candidate name whose derived address starts
//! with the desired prefix, or `NotFound` once the whole range is exhausted.
//! Chunks are evaluated concurrently, so the winning chunk is whichever
//! reports first; only within a chunk is the smallest matching counter owed.

use vstd::prelude::*;
use vstd::arithmetic::div_mod::{
    lemma_basic_div, lemma_div_basics_5, lemma_div_plus_one, lemma_div_is_ordered,
    lemma_fundamental_div_mod, lemma_fundamental_div_mod_converse_div, lemma_mod_bound,
};
use vstd::arithmetic::mul::{
    lemma_mul_inequality, lemma_mul_is_commutative, lemma_mul_is_distributive_add_other_way,
    lemma_mul_nonnegative,
};
use crate::bytes::{dec_rep, push_all, push_decimal, starts_with};
use crate::create3::{compute_create3_address, derived_address, Address, Hash32};
use crate::hexfmt::{hex_form, to_hex_form};
use rayon::iter::{IntoParallelIterator, ParallelIterator};
use std::io::Write;

verus! {

/// Terminal failure: the whole counter range was exhausted with no matching
/// address.
#[derive(Clone, Copy, Debug, PartialEq, Eq)]
pub struct NotFound;

/// The read-only configuration of one search run.
#[derive(Clone)]
pub struct SearchConfig {
    /// Address of the factory contract that would perform the deployment.
    pub deployer: Address,
    /// Digest of the bytecode that would be deployed.
    pub code_fingerprint: Hash32,
    /// Desired textual prefix of the derived address, in lowercase; matched
    /// against `0x` followed by the address's lowercase hex digits.
    pub prefix: Vec<u8>,
    /// Fixed base label; the candidate name is this label followed by the
    /// counter's decimal digits.
    pub base_label: Vec<u8>,
    /// Number of contiguous counters dispatched as one unit of work.
    pub chunk_size: u64,
    /// The counters searched are `0 .. max_counter`.
    pub max_counter: u64,
}

impl SearchConfig {
    /// Well-formed: sized byte fields, a positive chunk size and range, and
    /// room to round the range up to a whole number of chunks.
    pub open spec fn wf(self) -> bool {
        &&& self.deployer.wf()
        &&& self.code_fingerprint.wf()
        &&& self.chunk_size >= 1
        &&& self.max_counter >= 1
        &&& self.max_counter + self.chunk_size <= u64::MAX
    }

    /// The candidate name tried at `counter`.
    pub open spec fn name_at(self, counter: nat) -> Seq<u8> {
        self.base_label@ + dec_rep(counter)
    }

    /// Whether the candidate at `counter` derives an address whose textual
    /// form starts with the desired prefix.
    pub open spec fn matches_at(self, counter: nat) -> bool {
        self.prefix@.is_prefix_of(
            hex_form(
                derived_address(
                    self.deployer.bytes@,
                    self.name_at(counter),
                    self.code_fingerprint.bytes@,
                ),
            ),
        )
    }

    /// Number of chunks: the range's length divided by the chunk size,
    /// rounded up.
    pub open spec fn num_chunks(self) -> int {
        (self.max_counter + self.chunk_size - 1) / (self.chunk_size as int)
    }

    /// First counter of chunk `i`.
    pub open spec fn chunk_start(self, i: int) -> int {
        i * self.chunk_size
    }

    /// One past the last counter of chunk `i`; the last chunk is cut off at
    /// the end of the range.
    pub open spec fn chunk_end(self, i: int) -> int {
        if self.chunk_start(i) + self.chunk_size <= self.max_counter {
            self.chunk_start(i) + self.chunk_size
        } else {
            self.max_counter as int
        }
    }

    /// Index of the chunk holding counter `c`.
    pub open spec fn chunk_of(self, c: int) -> int {
        c / (self.chunk_size as int)
    }

    /// What one chunk's scan reports on success: `c` lies in chunk `i`, its
    /// candidate matches, and no earlier counter of that chunk does.
    pub open spec fn chunk_result(self, i: int, c: int) -> bool {
        &&& 0 <= i < self.num_chunks()
        &&& self.chunk_start(i) <= c < self.chunk_end(i)
        &&& self.matches_at(c as nat)
        &&& forall|j: int| self.chunk_start(i) <= j < c ==> !(#[trigger] self.matches_at(j as nat))
    }

    /// No counter of chunk `i` matches.
    pub open spec fn chunk_all_miss(self, i: int) -> bool {
        forall|j: int|
            self.chunk_start(i) <= j < self.chunk_end(i) ==> !(#[trigger] self.matches_at(
                j as nat,
            ))
    }

    /// What a successful search returns at counter `c`: the counter is in
    /// range, its candidate matches, and no earlier counter of the same
    /// chunk does.
    pub open spec fn found_at(self, c: int) -> bool {
        &&& 0 <= c < self.max_counter
        &&& self.matches_at(c as nat)
        &&& forall|j: int|
            self.chunk_of(c) * self.chunk_size <= j < c ==> !(#[trigger] self.matches_at(
                j as nat,
            ))
    }
}

/// The first counter of a chunk in range lies strictly below the end of the
/// range.
proof fn lemma_chunk_start_in_range(cfg: SearchConfig, i: int)
    requires
        cfg.wf(),
        0 <= i < cfg.num_chunks(),
    ensures
        0 <= cfg.chunk_start(i) < cfg.max_counter,
{
    let cs = cfg.chunk_size as int;
    let m = cfg.max_counter as int;
    let q = (m + cs - 1) / cs;
    lemma_mul_nonnegative(i, cs);
    lemma_fundamental_div_mod(m + cs - 1, cs);
    lemma_mod_bound(m + cs - 1, cs);
    // cs * q <= m + cs - 1
    lemma_mul_inequality(i + 1, q, cs);
    lemma_mul_is_commutative(q, cs);
    lemma_mul_is_distributive_add_other_way(cs, i, 1);
    // (i + 1) * cs == i * cs + cs, so i * cs <= m - 1
}

/// Every counter of the range lies in exactly one chunk, the one with index
/// `counter / chunk_size`: the chunks cover the range with no gaps and no
/// overlaps.
pub proof fn lemma_chunks_partition(cfg: SearchConfig, c: int)
    requires
        cfg.wf(),
        0 <= c < cfg.max_counter,
    ensures
        0 <= cfg.chunk_of(c) < cfg.num_chunks(),
        cfg.chunk_start(cfg.chunk_of(c)) <= c < cfg.chunk_end(cfg.chunk_of(c)),
        forall|i: int|
            0 <= i < cfg.num_chunks() && i != cfg.chunk_of(c) ==> !(#[trigger] cfg.chunk_start(
                i,
            ) <= c < cfg.chunk_end(i)),
{
    let cs = cfg.chunk_size as int;
    let m = cfg.max_counter as int;
    let i0 = c / cs;
    lemma_fundamental_div_mod(c, cs);
    lemma_mod_bound(c, cs);
    // c == cs * i0 + c % cs with 0 <= c % cs < cs
    lemma_mul_is_commutative(i0, cs);
    assert(i0 * cs <= c < i0 * cs + cs);
    // i0 >= 0 and i0 < num_chunks
    lemma_div_is_ordered(c, m - 1, cs);
    lemma_div_plus_one(m - 1, cs);
    assert(cfg.num_chunks() == (m - 1) / cs + 1);
    assert(0 <= i0 < cfg.num_chunks());
    assert forall|i: int|
        0 <= i < cfg.num_chunks() && i != i0 implies !(#[trigger] cfg.chunk_start(i) <= c
        < cfg.chunk_end(i)) by {
        if i < i0 {
            lemma_mul_inequality(i + 1, i0, cs);
            lemma_mul_is_distributive_add_other_way(cs, i, 1);
            // chunk_end(i) <= (i + 1) * cs <= i0 * cs <= c
        } else {
            lemma_mul_inequality(i0 + 1, i, cs);
            lemma_mul_is_distributive_add_other_way(cs, i0, 1);
            // c < (i0 + 1) * cs <= i * cs == chunk_start(i)
        }
    }
}

/// A counter reported by one chunk's scan is a valid search result.
proof fn lemma_chunk_result_is_found(cfg: SearchConfig, i: int, c: int)
    requires
        cfg.wf(),
        cfg.chunk_result(i, c),
    ensures
        cfg.found_at(c),
{
    let cs = cfg.chunk_size as int;
    lemma_chunk_start_in_range(cfg, i);
    assert(0 <= c < cfg.max_counter);
    lemma_mul_is_commutative(i, cs);
    lemma_fundamental_div_mod_converse_div(c, cs, i, c - i * cs);
    assert(cfg.chunk_of(c) == i);
}

/// With a single chunk covering the whole range (`chunk_size >=
/// max_counter`), a successful search result is the smallest matching
/// counter of the range.
pub proof fn lemma_single_chunk_returns_smallest(cfg: SearchConfig, c: int)
    requires
        cfg.wf(),
        cfg.chunk_size >= cfg.max_counter,
        cfg.found_at(c),
    ensures
        0 <= c < cfg.max_counter,
        cfg.matches_at(c as nat),
        forall|j: int| 0 <= j < c ==> !(#[trigger] cfg.matches_at(j as nat)),
{
    let cs = cfg.chunk_size as int;
    lemma_basic_div(c, cs);
    assert(cfg.chunk_of(c) == 0);
    assert(cfg.chunk_of(c) * cs == 0) by {
        lemma_mul_is_commutative(0, cs);
    }
}

/// An empty desired prefix matches every candidate, so a search with an
/// empty prefix can never be exhausted: by the contract of
/// `find_vanity_address`, it must return a name.
pub proof fn lemma_empty_prefix_matches_every_counter(cfg: SearchConfig, counter: nat)
    requires
        cfg.prefix@.len() == 0,
    ensures
        cfg.matches_at(counter),
{
    let rendered = hex_form(
        derived_address(cfg.deployer.bytes@, cfg.name_at(counter), cfg.code_fingerprint.bytes@),
    );
    assert(cfg.prefix@ =~= rendered.subrange(0, 0));
}

/// Builds the candidate name for `counter`: the base label followed by the
/// counter's decimal digits.
pub fn build_candidate_name(base_label: &Vec<u8>, counter: u64) -> (r: Vec<u8>)
    ensures
        r@ == base_label@ + dec_rep(counter as nat),
{
    let mut r: Vec<u8> = Vec::new();
    push_all(&mut r, base_label);
    push_decimal(&mut r, counter);
    assert(r@ =~= base_label@ + dec_rep(counter as nat));
    r
}

/// Relies on std::io::stdout for a diagnostic progress line; the search's
/// result does not depend on it.
#[verifier::external_body]
fn report_progress(counter: u64) {
    let mut out = std::io::stdout();
    let _ = writeln!(out, "Checked {} names...", counter);
}

/// Scans chunk `chunk_index` in ascending counter order and returns its
/// smallest matching counter, or `None` if none of its counters match.
pub fn scan_chunk(cfg: &SearchConfig, chunk_index: u64) -> (r: Option<u64>)
    requires
        cfg.wf(),
        chunk_index < cfg.num_chunks(),
    ensures
        match r {
            Some(c) => cfg.chunk_result(chunk_index as int, c as int),
            None => cfg.chunk_all_miss(chunk_index as int),
        },
{
    proof {
        lemma_chunk_start_in_range(*cfg, chunk_index as int);
    }
    let start: u64 = chunk_index * cfg.chunk_size;
    let end: u64 = if cfg.max_counter - start < cfg.chunk_size {
        cfg.max_counter
    } else {
        start + cfg.chunk_size
    };
    assert(end == cfg.chunk_end(chunk_index as int));
    let mut counter: u64 = start;
    while counter < end
        invariant
            cfg.wf(),
            chunk_index < cfg.num_chunks(),
            start == cfg.chunk_start(chunk_index as int),
            end == cfg.chunk_end(chunk_index as int),
            start <= counter <= end,
            forall|j: int| start <= j < counter ==> !(#[trigger] cfg.matches_at(j as nat)),
        decreases end - counter,
    {
        if counter % 10000 == 0 {
            report_progress(counter);
        }
        let name = build_candidate_name(&cfg.base_label, counter);
        let address = compute_create3_address(&cfg.deployer, &name, &cfg.code_fingerprint);
        let rendered = to_hex_form(&address.bytes);
        if starts_with(&rendered, &cfg.prefix) {
            assert(cfg.matches_at(counter as nat));
            return Some(counter);
        }
        assert(!cfg.matches_at(counter as nat));
        counter = counter + 1;
    }
    None
}

/// Relies on rayon's ParallelIterator::find_map_any over the chunk indices:
/// it returns a value produced by `scan_chunk` on some index, or `None` once
/// `scan_chunk` returned `None` on every index. Which chunk answers first
/// depends on scheduling, so only what holds of every outcome is stated.
#[verifier::external_body]
fn par_scan_chunks(cfg: &SearchConfig, num_chunks: u64) -> (r: Option<u64>)
    requires
        cfg.wf(),
        num_chunks == cfg.num_chunks(),
    ensures
        match r {
            Some(c) => exists|i: int| #[trigger] cfg.chunk_result(i, c as int),
            None => forall|i: int| 0 <= i < cfg.num_chunks() ==> cfg.chunk_all_miss(i),
        },
{
    (0..num_chunks).into_par_iter().find_map_any(|chunk| scan_chunk(cfg, chunk))
}

/// Searches `[0, max_counter)` for a candidate name whose derived address
/// starts with the desired prefix. Chunks are evaluated concurrently and the
/// first chunk to report wins, so the result is the smallest matching
/// counter of its own chunk, not necessarily of the whole range. Fails with
/// `NotFound` exactly when no counter of the range matches.
pub fn find_vanity_address(cfg: &SearchConfig) -> (r: Result<(Vec<u8>, Address), NotFound>)
    requires
        cfg.wf(),
    ensures
        match r {
            Ok((name, address)) => exists|c: int|
                {
                    &&& #[trigger] cfg.found_at(c)
                    &&& name@ == cfg.name_at(c as nat)
                    &&& address.wf()
                    &&& address.bytes@ == derived_address(
                        cfg.deployer.bytes@,
                        cfg.name_at(c as nat),
                        cfg.code_fingerprint.bytes@,
                    )
                },
            Err(e) => forall|c: int|
                0 <= c < cfg.max_counter ==> !(#[trigger] cfg.matches_at(c as nat)),
        },
{
    let num_chunks: u64 = (cfg.max_counter - 1) / cfg.chunk_size + 1;
    proof {
        let cs = cfg.chunk_size as int;
        let m = cfg.max_counter as int;
        lemma_div_basics_5(m - 1, cs);
        lemma_div_plus_one(m - 1, cs);
        assert(num_chunks == cfg.num_chunks());
    }
    match par_scan_chunks(cfg, num_chunks) {
        Some(counter) => {
            proof {
                let i = choose|i: int| cfg.chunk_result(i, counter as int);
                lemma_chunk_result_is_found(*cfg, i, counter as int);
            }
            let name = build_candidate_name(&cfg.base_label, counter);
            let address = compute_create3_address(&cfg.deployer, &name, &cfg.code_fingerprint);
            Ok((name, address))
        },
        None => {
            proof {
                assert forall|c: int| 0 <= c < cfg.max_counter implies !(
                #[trigger] cfg.matches_at(c as nat)) by {
                    lemma_chunks_partition(*cfg, c);
                    assert(cfg.chunk_all_miss(cfg.chunk_of(c)));
                }
            }
            Err(NotFound)
        },
    }
}

} // verus!
