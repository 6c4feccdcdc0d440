use tract_exec::datum::DatumType;
use tract_exec::error::CoreError;
use tract_exec::gemm::{squeeze_batch_axes, GemmDispatchParams};

fn params(
    dt: DatumType,
    batch: usize,
    (m, k, n): (usize, usize, usize),
    transpose_a: bool,
    a_offset: usize,
    b_offset: usize,
    c_offset: usize,
) -> GemmDispatchParams {
    GemmDispatchParams {
        dts: [dt; 3],
        batch,
        m,
        n,
        k,
        transpose_a,
        a_offset,
        transpose_b: false,
        b_offset,
        c_offset,
    }
}

#[test]
fn test_gemm_dispatches_params() -> Result<(), CoreError> {
    let dt = DatumType::F32;
    let (m, k, n) = (2, 3, 4);
    assert_eq!(
        GemmDispatchParams::compute_dispatches_params(
            [dt; 3],
            0,
            &[1, m, k],
            false,
            0,
            &[1, k, n],
            false,
            0,
            &[1, m, n],
        )?,
        vec![GemmDispatchParams {
            dts: [dt; 3],
            batch: 1,
            m,
            n,
            k,
            transpose_a: false,
            a_offset: 0,
            transpose_b: false,
            b_offset: 0,
            c_offset: 0,
        }]
    );

    assert_eq!(
        GemmDispatchParams::compute_dispatches_params(
            [dt; 3],
            0,
            &[10, m, k],
            false,
            0,
            &[10, k, n],
            false,
            0,
            &[10, m, n],
        )?,
        vec![GemmDispatchParams {
            dts: [dt; 3],
            batch: 10,
            m,
            n,
            k,
            transpose_a: false,
            a_offset: 0,
            transpose_b: false,
            b_offset: 0,
            c_offset: 0,
        }]
    );

    assert_eq!(
        GemmDispatchParams::compute_dispatches_params(
            [dt; 3],
            0,
            &[1, m, k],
            false,
            0,
            &[2, k, n],
            false,
            10,
            &[2, m, n],
        )?,
        vec![
            GemmDispatchParams {
                dts: [dt; 3],
                batch: 1,
                m,
                n,
                k,
                transpose_a: false,
                a_offset: 0,
                transpose_b: false,
                b_offset: 0,
                c_offset: 10,
            },
            GemmDispatchParams {
                dts: [dt; 3],
                batch: 1,
                m,
                n,
                k,
                transpose_a: false,
                a_offset: 0,
                transpose_b: false,
                b_offset: 1 * n * k * dt.size_of(),
                c_offset: 10 + m * n * dt.size_of(),
            }
        ]
    );

    assert_eq!(
        GemmDispatchParams::compute_dispatches_params(
            [dt; 3],
            0,
            &[2, k, m],
            true,
            0,
            &[2, k, n],
            false,
            100,
            &[2, m, n],
        )?,
        vec![GemmDispatchParams {
            dts: [dt; 3],
            batch: 2,
            m,
            n,
            k,
            transpose_a: true,
            a_offset: 0,
            transpose_b: false,
            b_offset: 0,
            c_offset: 100,
        }]
    );

    assert_eq!(
        GemmDispatchParams::compute_dispatches_params(
            [dt; 3],
            0,
            &[2, k, m],
            true,
            0,
            &[1, k, n],
            false,
            100,
            &[2, m, n],
        )?,
        vec![
            GemmDispatchParams {
                dts: [dt; 3],
                batch: 1,
                m,
                n,
                k,
                transpose_a: true,
                a_offset: 0,
                transpose_b: false,
                b_offset: 0,
                c_offset: 100,
            },
            GemmDispatchParams {
                dts: [dt; 3],
                batch: 1,
                m,
                n,
                k,
                transpose_a: true,
                a_offset: 1 * m * k * dt.size_of(),
                transpose_b: false,
                b_offset: 0,
                c_offset: 100 + 1 * m * n * dt.size_of(),
            }
        ]
    );

    assert_eq!(
        GemmDispatchParams::compute_dispatches_params(
            [dt; 3],
            0,
            &[10, m, k],
            false,
            10,
            &[1, k, n],
            false,
            0,
            &[10, m, n],
        )?,
        vec![GemmDispatchParams {
            dts: [dt; 3],
            batch: 1,
            m: 10 * m,
            n,
            k,
            transpose_a: false,
            a_offset: 0,
            transpose_b: false,
            b_offset: 10,
            c_offset: 0,
        }]
    );

    Ok(())
}

#[test]
fn test_squeeze_batch_axes() -> Result<(), CoreError> {
    assert_eq!(squeeze_batch_axes(&[1, 2, 3, 4])?, vec![2, 3, 4]);
    assert_eq!(squeeze_batch_axes(&[3, 2, 3, 4])?, vec![6, 3, 4]);
    assert_eq!(squeeze_batch_axes(&[3, 1, 2, 3, 4])?, vec![6, 3, 4]);
    assert!(squeeze_batch_axes(&[1]).is_err());
    assert_eq!(squeeze_batch_axes(&[1, 1, 3, 4])?, vec![1, 3, 4]);
    Ok(())
}

#[test]
fn single_batch_gives_one_dispatch_at_zero_offsets() {
    let dt = DatumType::F32;
    let r = GemmDispatchParams::compute_dispatches_params(
        [dt; 3], 0, &[1, 2, 3], false, 0, &[1, 3, 4], false, 0, &[1, 2, 4],
    )
    .unwrap();
    assert_eq!(r, vec![params(dt, 1, (2, 3, 4), false, 0, 0, 0)]);
}

#[test]
fn broadcast_b_folds_batch_into_m() {
    let dt = DatumType::F32;
    let r = GemmDispatchParams::compute_dispatches_params(
        [dt; 3], 0, &[10, 2, 3], false, 0, &[1, 3, 4], false, 0, &[10, 2, 4],
    )
    .unwrap();
    assert_eq!(r, vec![params(dt, 1, (20, 3, 4), false, 0, 0, 0)]);
}

#[test]
fn transposed_a_gives_one_dispatch_per_batch() {
    let dt = DatumType::F32;
    let r = GemmDispatchParams::compute_dispatches_params(
        [dt; 3], 0, &[10, 3, 2], true, 0, &[1, 3, 4], false, 0, &[10, 2, 4],
    )
    .unwrap();
    assert_eq!(r.len(), 10);
    for (i, d) in r.iter().enumerate() {
        assert_eq!(*d, params(dt, 1, (2, 3, 4), true, i * 2 * 3 * 4, 0, i * 2 * 4 * 4));
    }
}

#[test]
fn dispatches_tile_the_output_buffer() {
    let dt = DatumType::F16;
    let cases: Vec<(Vec<usize>, bool, Vec<usize>, Vec<usize>)> = vec![
        (vec![3, 5, 2], false, vec![1, 2, 7], vec![3, 5, 7]),
        (vec![3, 2, 5], true, vec![1, 2, 7], vec![3, 5, 7]),
        (vec![1, 5, 2], false, vec![4, 2, 7], vec![4, 5, 7]),
        (vec![2, 2, 5, 2], false, vec![2, 2, 2, 7], vec![2, 2, 5, 7]),
    ];
    for (a, ta, b, c) in cases {
        let r = GemmDispatchParams::compute_dispatches_params([dt; 3], 8, &a, ta, 16, &b, false, 32, &c)
            .unwrap();
        let mut next = 32;
        for d in &r {
            assert_eq!(d.c_offset, next);
            next += d.batch * d.m * d.n * dt.size_of();
        }
        let total: usize = c.iter().product();
        assert_eq!(next, 32 + total * dt.size_of());
    }
}

#[test]
fn unequal_batches_are_refused() {
    let dt = DatumType::F32;
    let r = GemmDispatchParams::compute_dispatches_params(
        [dt; 3], 0, &[2, 2, 3], false, 0, &[3, 3, 4], false, 0, &[2, 2, 4],
    );
    assert_eq!(r, Err(CoreError::IncompatibleBatchDims));
    let r = GemmDispatchParams::compute_dispatches_params(
        [dt; 3], 0, &[2, 2, 3], false, 0, &[1, 3, 4], false, 0, &[5, 2, 4],
    );
    assert_eq!(r, Err(CoreError::IncompatibleBatchDims));
}

#[test]
fn oversized_offsets_are_refused() {
    let dt = DatumType::F32;
    let r = GemmDispatchParams::compute_dispatches_params(
        [dt; 3], usize::MAX - 4, &[2, 3, 2], true, 0, &[1, 3, 4], false, 0, &[2, 2, 4],
    );
    assert_eq!(r, Err(CoreError::SizeOverflow));
    assert_eq!(squeeze_batch_axes(&[usize::MAX, 2, 1, 1]), Err(CoreError::SizeOverflow));
    assert_eq!(squeeze_batch_axes(&[usize::MAX, 2, 0, 1, 1]), Ok(vec![0, 1, 1]));
}
