//! Path construction for the local-filesystem backend: objects are laid out
//! under the target by date and by a directory shard that rolls over after a
//! bounded number of entries, so no directory grows without limit.

use vstd::prelude::*;

use crate::textfmt::{dec_seq, push_dec_u64};

verus! {

/// How many objects one directory shard takes before the next is started.
pub const DEF_MAX_DIRENTS: u64 = 100000;

/// Relies on chrono's UTC clock (`Utc::now`, `Datelike`): whatever the
/// moment of the call, the current date's month lies in 1..=12 and its day
/// in 1..=31.
#[verifier::external_body]
fn today_ymd() -> (r: (u64, u64, u64))
    ensures
        1 <= r.1 <= 12,
        1 <= r.2 <= 31,
{
    let today = chrono::Utc::now().date_naive();
    let y = chrono::Datelike::year(&today) as u64;
    let m = chrono::Datelike::month(&today) as u64;
    let d = chrono::Datelike::day(&today) as u64;
    (y, m, d)
}

/// The directory-sharding state of one filesystem backend: how many objects
/// the current shard has taken, and the shard number.
pub struct DirState {
    obj_cnt_dir: u64,
    dir_shard: u32,
}

impl DirState {
    /// Objects placed in the current shard so far.
    pub closed spec fn count(&self) -> u64 {
        self.obj_cnt_dir
    }

    /// The current shard number.
    pub closed spec fn shard(&self) -> u32 {
        self.dir_shard
    }

    /// The shard never takes more than its bound of entries.
    pub open spec fn wf(&self) -> bool {
        self.count() <= DEF_MAX_DIRENTS
    }

    pub fn new() -> (s: DirState)
        ensures
            s.count() == 0,
            s.shard() == 0,
            s.wf(),
    {
        DirState { obj_cnt_dir: 0, dir_shard: 0 }
    }

    /// The filesystem path of one new object:
    /// `TARGET/YEAR/MONTHDAY/SHARD/NAME`, dated by the UTC clock. Counts the
    /// object against the current shard, rolling over to the next shard when
    /// the bound is passed (the shard number saturates rather than wraps).
    pub fn get_path(&mut self, target: &str, fname: &str) -> (r: String)
        requires
            old(self).wf(),
        ensures
            final(self).wf(),
            old(self).count() < DEF_MAX_DIRENTS ==> final(self).count() == old(self).count() + 1
                && final(self).shard() == old(self).shard(),
            old(self).count() == DEF_MAX_DIRENTS ==> final(self).count() == 0
                && final(self).shard() as int == (if old(self).shard() < u32::MAX {
                old(self).shard() + 1
            } else {
                old(self).shard() as int
            }),
            exists|y: u64, m: u64, d: u64|
                1 <= m <= 12 && 1 <= d <= 31 && r@ == path_seq(
                    target@,
                    y,
                    m,
                    d,
                    final(self).shard(),
                    fname@,
                ),
    {
        let (y, m, d) = today_ymd();
        self.obj_cnt_dir = self.obj_cnt_dir + 1;
        if self.obj_cnt_dir > DEF_MAX_DIRENTS {
            self.obj_cnt_dir = 0;
            if self.dir_shard < u32::MAX {
                self.dir_shard = self.dir_shard + 1;
            }
        }
        let mut s = target.to_owned();
        s.append("/");
        push_dec_u64(&mut s, y);
        s.append("/");
        push_dec_u64(&mut s, m);
        push_dec_u64(&mut s, d);
        s.append("/");
        push_dec_u64(&mut s, self.dir_shard as u64);
        s.append("/");
        s.append(fname);
        proof {
            assert(s@ =~= path_seq(target@, y, m, d, self.dir_shard, fname@));
        }
        s
    }
}

/// The rendered filesystem path of one object.
pub open spec fn path_seq(
    target: Seq<char>,
    y: u64,
    m: u64,
    d: u64,
    shard: u32,
    fname: Seq<char>,
) -> Seq<char> {
    target + "/"@ + dec_seq(y as nat) + "/"@ + dec_seq(m as nat) + dec_seq(d as nat) + "/"@
        + dec_seq(shard as nat) + "/"@ + fname
}

} // verus!
