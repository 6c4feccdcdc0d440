use tract_exec::pack::{pack, unpack};

#[test]
fn pack_layout_and_padding() {
    // 3 rows by 2 steps, row-major
    let src = vec![1, 2, 3, 4, 5, 6];
    let p = pack(&src, 2, 3, 2, 2, 1, 0);
    assert_eq!(p, vec![1, 3, 2, 4, 5, 0, 6, 0]);
}

#[test]
fn pack_then_unpack_round_trips() {
    for r in 1..6usize {
        for mn in 0..7usize {
            for k in 0..5usize {
                // column-major source: rows are contiguous
                let src: Vec<i64> = (0..(mn * k) as i64).map(|x| x * 3 - 7).collect();
                let p = pack(&src, r, mn, k, 1, mn, -1);
                assert_eq!(p.len(), (mn + r - 1) / r * r * k);
                let back = unpack(&p, r, mn, k);
                let expected: Vec<i64> =
                    (0..mn).flat_map(|i| (0..k).map(move |kk| (i + kk * mn) as i64 * 3 - 7)).collect();
                assert_eq!(back, expected, "r {r} mn {mn} k {k}");
            }
        }
    }
}

use tract_exec::fused::{run_fused, FusedSpec};

#[test]
fn packed_panels_through_kernel_match_reference() {
    let (m, k, n, mr, nr) = (5usize, 3usize, 7usize, 4usize, 3usize);
    // A is m x k row-major, B is k x n row-major (free axis n, stride 1)
    let a: Vec<i32> = (0..(m * k) as i32).map(|x| x - 6).collect();
    let b: Vec<i32> = (0..(k * n) as i32).map(|x| 2 * x - 9).collect();
    let pa = pack(&a, mr, m, k, k, 1, 0);
    let pb = pack(&b, nr, n, k, 1, n, 0);
    let ops = vec![FusedSpec::Clear, FusedSpec::AddMatMul { k }, FusedSpec::Store];
    let mut c = vec![0i32; m * n];
    for p in 0..(m + mr - 1) / mr {
        for q in 0..(n + nr - 1) / nr {
            let pa_panel = pa[p * mr * k..(p + 1) * mr * k].to_vec();
            let pb_panel = pb[q * nr * k..(q + 1) * nr * k].to_vec();
            let mut tile = vec![-1i32; mr * nr];
            run_fused(&ops, &pa_panel, &pb_panel, mr, nr, &mut tile);
            for x in 0..mr {
                for y in 0..nr {
                    let (i, j) = (p * mr + x, q * nr + y);
                    if i < m && j < n {
                        c[i * n + j] = tile[x * nr + y];
                    }
                }
            }
        }
    }
    for i in 0..m {
        for j in 0..n {
            let expected: i32 = (0..k).map(|l| a[i * k + l] * b[l * n + j]).sum();
            assert_eq!(c[i * n + j], expected, "({i}, {j})");
        }
    }
}

#[test]
fn fused_steps_run_in_order() {
    let a = vec![1, 2, -3, 4];
    let b = vec![1, -1];
    // mr = 2, nr = 1, k = 2: acc[x] = a[x] * b[0] + a[2 + x] * b[1]
    let ops = vec![
        FusedSpec::Clear,
        FusedSpec::AddMatMul { k: 2 },
        FusedSpec::Store,
        FusedSpec::ScalarAdd(-10),
        FusedSpec::Relu,
    ];
    let mut out = vec![7, 7];
    run_fused(&ops, &a, &b, 2, 1, &mut out);
    assert_eq!(out, vec![4, -2]);
    let ops = vec![FusedSpec::AddMatMul { k: 2 }, FusedSpec::ScalarAdd(-3), FusedSpec::Relu, FusedSpec::Store];
    run_fused(&ops, &a, &b, 2, 1, &mut out);
    assert_eq!(out, vec![1, 0]);
    let mut untouched = vec![5, 5];
    run_fused(&vec![FusedSpec::AddMatMul { k: 1 }], &a, &b, 2, 1, &mut untouched);
    assert_eq!(untouched, vec![5, 5]);
    let mut wraps = vec![0];
    run_fused(&vec![FusedSpec::ScalarAdd(i32::MAX), FusedSpec::ScalarAdd(1), FusedSpec::Store], &a, &b, 1, 1, &mut wraps);
    assert_eq!(wraps, vec![i32::MIN]);
}
