use vstd::prelude::*;

use crate::coords::IVec3;
use crate::voxel::VoxelType;

verus! {

/// Mining work, in milliseconds times tool speed (in tenths), that one tenth
/// of hardness asks for: breaking takes `hardness * 1.5 / speed` seconds.
pub const WORK_PER_HARDNESS: u64 = 1500;

/// The tool speed of a bare hand, in tenths.
pub const HAND_SPEED: u32 = 10;

/// The mining work that breaks `v`; `None` when nothing breaks it.
pub open spec fn break_cost(v: VoxelType) -> Option<int> {
    match v.spec_hardness() {
        Some(h) => Some(h * WORK_PER_HARDNESS),
        None => None,
    }
}

/// Whether `elapsed_ms` of mining at `tool_speed` breaks `v`.
pub open spec fn breaks(v: VoxelType, tool_speed: int, elapsed_ms: int) -> bool {
    match break_cost(v) {
        Some(cost) => elapsed_ms * tool_speed >= cost,
        None => false,
    }
}

/// The least whole number of milliseconds that breaks `v` at `tool_speed`.
pub open spec fn min_break_time(v: VoxelType, tool_speed: int) -> Option<int> {
    match break_cost(v) {
        Some(cost) => Some((cost + tool_speed - 1) / tool_speed),
        None => None,
    }
}

/// How long the voxel under the cursor has been mined.
#[derive(Clone, Copy, PartialEq, Eq, Debug, Structural)]
pub struct MiningProgress {
    pub target: Option<IVec3>,
    pub elapsed_ms: u64,
}

/// One step of mining `voxel` at world position `target` for `dt_ms`:
/// a new target starts from nothing; air and bedrock make no progress; a
/// voxel that breaks resets the progress.
pub open spec fn mining_step(p: MiningProgress, target: IVec3, voxel: VoxelType, dt_ms: int, tool_speed: int) -> (MiningProgress, bool) {
    let base = if p.target == Some(target) {
        p.elapsed_ms as int
    } else {
        0
    };
    if voxel == VoxelType::Air || voxel == VoxelType::Bedrock {
        (MiningProgress { target: Some(target), elapsed_ms: base as u64 }, false)
    } else {
        let e = if base + dt_ms > u64::MAX {
            u64::MAX as int
        } else {
            base + dt_ms
        };
        if breaks(voxel, tool_speed, e) {
            (MiningProgress { target: None, elapsed_ms: 0 }, true)
        } else {
            (MiningProgress { target: Some(target), elapsed_ms: e as u64 }, false)
        }
    }
}

impl MiningProgress {
    /// Nothing is being mined.
    pub fn new() -> (r: MiningProgress)
        ensures
            r == (MiningProgress { target: None, elapsed_ms: 0 }),
    {
        MiningProgress { target: None, elapsed_ms: 0 }
    }

    /// The mouse button was let go: the progress is lost.
    pub fn reset(&mut self)
        ensures
            *final(self) == (MiningProgress { target: None, elapsed_ms: 0 }),
    {
        self.target = None;
        self.elapsed_ms = 0;
    }

    /// Mines `voxel` at `target` for `dt_ms` more milliseconds at
    /// `tool_speed` (tenths; a hand is 10). Returns whether it broke.
    pub fn advance(&mut self, target: IVec3, voxel: VoxelType, dt_ms: u64, tool_speed: u32) -> (broken: bool)
        ensures
            (*final(self), broken) == mining_step(*old(self), target, voxel, dt_ms as int, tool_speed as int),
    {
        let same = match self.target {
            Some(t) => t == target,
            None => false,
        };
        if !same {
            self.target = Some(target);
            self.elapsed_ms = 0;
        }
        if voxel == VoxelType::Air || voxel == VoxelType::Bedrock {
            return false;
        }
        let e = self.elapsed_ms.saturating_add(dt_ms);
        let cost = match voxel.hardness() {
            Some(h) => h as u128 * WORK_PER_HARDNESS as u128,
            None => 0,
        };
        assert((e as int) * (tool_speed as int) <= 0xffff_ffff_ffff_ffff * 0xffff_ffff) by (nonlinear_arith)
            requires
                e <= 0xffff_ffff_ffff_ffffu64,
                tool_speed <= 0xffff_ffffu32,
        ;
        if e as u128 * tool_speed as u128 >= cost {
            self.target = None;
            self.elapsed_ms = 0;
            true
        } else {
            self.elapsed_ms = e;
            false
        }
    }
}

/// The least whole number of milliseconds of mining at `tool_speed` that
/// breaks `voxel`; `None` for bedrock, which never breaks.
pub fn break_time_ms(voxel: VoxelType, tool_speed: u32) -> (r: Option<u64>)
    requires
        tool_speed > 0,
    ensures
        r matches Some(t) ==> min_break_time(voxel, tool_speed as int) == Some(t as int),
        r is None <==> min_break_time(voxel, tool_speed as int) is None,
{
    match voxel.hardness() {
        Some(h) => {
            let cost = h as u64 * WORK_PER_HARDNESS;
            Some((cost + tool_speed as u64 - 1) / tool_speed as u64)
        },
        None => None,
    }
}

/// At any one tool speed, whatever breaks stone breaks dirt too, and stone
/// takes longer: its least break time is larger (for every speed under
/// 22500, above which both break within the first millisecond).
pub proof fn lemma_stone_slower_than_dirt(tool_speed: int, elapsed_ms: int)
    requires
        1 <= tool_speed,
        0 <= elapsed_ms,
    ensures
        breaks(VoxelType::Stone, tool_speed, elapsed_ms) ==> breaks(VoxelType::Dirt, tool_speed, elapsed_ms),
        tool_speed < 22500 ==> min_break_time(VoxelType::Stone, tool_speed)->0 > min_break_time(
            VoxelType::Dirt,
            tool_speed,
        )->0,
{
    let s = tool_speed;
    if s < 22500 {
        let q = (7500 + s - 1) / s;
        let q2 = (22500 + s - 1) / s;
        assert(q * s <= 7500 + s - 1 && q >= 1) by (nonlinear_arith)
            requires
                s >= 1,
                q == (7500 + s - 1) / s,
        ;
        assert(q * s <= 22499) by (nonlinear_arith)
            requires
                s >= 1,
                s < 22500,
                q >= 1,
                q * s <= 7500 + s - 1,
        ;
        assert(q2 >= q + 1) by (nonlinear_arith)
            requires
                s >= 1,
                q * s <= 22499,
                q2 == (22500 + s - 1) / s,
        ;
    }
}

/// Bedrock never breaks: no step of mining it reports a break, whatever
/// the progress so far, the time spent or the tool.
pub proof fn lemma_bedrock_never_breaks(p: MiningProgress, target: IVec3, dt_ms: int, tool_speed: int)
    ensures
        !mining_step(p, target, VoxelType::Bedrock, dt_ms, tool_speed).1,
        forall|e: int| !breaks(VoxelType::Bedrock, tool_speed, e),
{
}

} // verus!
