//! Device dispatch grids and the reduction schedule.

use perturbation_kernel::gpu::{self, grid, reduce_plan, Slot, MAX_GRID_X, WORKGROUP};

#[test]
fn grids_cover_their_invocations() {
    assert_eq!(grid(0), (1, 1));
    assert_eq!(grid(1), (1, 1));
    assert_eq!(grid(64), (1, 1));
    assert_eq!(grid(65), (2, 1));
    assert_eq!(grid(64 * 32_768), (32_768, 1));
    assert_eq!(grid(64 * 32_768 + 1), (32_768, 2));
    assert_eq!(grid(u32::MAX), (32_768, 2_048));
    for t in [0u32, 1, 63, 64, 65, 1_000, 4_096, 1_000_003, u32::MAX] {
        let (x, y) = grid(t);
        assert!(x >= 1 && x <= MAX_GRID_X && y >= 1);
        assert!(x as u64 * y as u64 * WORKGROUP as u64 >= t as u64);
    }
    assert!(!gpu::available());
}

#[test]
fn the_reduction_schedule_ping_pongs() {
    let plan = reduce_plan(5, 2, 1);
    let lens: Vec<(u32, u32)> = plan.iter().map(|l| (l.len, l.out_len)).collect();
    assert_eq!(lens, vec![(5, 3), (3, 2), (2, 1)]);
    assert_eq!(plan[0].read, Slot::Source);
    assert_eq!(plan[0].write, Slot::ScratchA);
    assert_eq!(plan[1].read, Slot::ScratchA);
    assert_eq!(plan[1].write, Slot::ScratchB);
    assert_eq!(plan[2].read, Slot::ScratchB);
    assert_eq!(plan[2].write, Slot::ScratchA);
    assert_eq!(
        plan.iter().map(|l| l.mode).collect::<Vec<_>>(),
        vec![1, 0, 0]
    );
    assert_eq!((plan[0].grid_x, plan[0].grid_y), grid(6));
    assert!(reduce_plan(1, 4, 1).is_empty());
    assert_eq!(reduce_plan(4_096, 1, 0).len(), 12);
    assert_eq!(reduce_plan(4_097, 1, 0).len(), 13);
}
