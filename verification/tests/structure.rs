use dualnet::layers::{weight_cell, LayerShape, ParamIndex, Sigmoid};
use dualnet::network::{active_for_layer, grad_row_start, NetworkShape};

fn net(shapes: Vec<LayerShape>) -> NetworkShape {
    NetworkShape::from_layers(shapes).expect("total parameter count fits in usize")
}

#[test]
fn sigmoid_owns_no_params() {
    let s = Sigmoid {};
    assert_eq!(s.num_params(), 0);
    assert_eq!(s.shape(), LayerShape::Sigmoid);
}

#[test]
fn linear_param_count_checked() {
    let l = LayerShape::Linear { in_size: 2, out_size: 3 };
    assert_eq!(l.checked_param_count(), Some(6));
    assert_eq!(l.num_params(), 6);
    assert_eq!(LayerShape::Sigmoid.checked_param_count(), Some(0));
}

#[test]
fn linear_param_count_overflows() {
    let l = LayerShape::Linear { in_size: usize::MAX, out_size: 2 };
    assert_eq!(l.checked_param_count(), None);
}

#[test]
fn from_layers_derives_total() {
    let n = net(vec![
        LayerShape::Linear { in_size: 2, out_size: 1 },
        LayerShape::Sigmoid,
    ]);
    assert_eq!(n.num_params, 2);

    let n = net(vec![
        LayerShape::Linear { in_size: 3, out_size: 2 },
        LayerShape::Sigmoid,
        LayerShape::Linear { in_size: 2, out_size: 2 },
    ]);
    assert_eq!(n.num_params, 10);

    let n = net(vec![]);
    assert_eq!(n.num_params, 0);
}

#[test]
fn from_layers_rejects_overflow() {
    let r = NetworkShape::from_layers(vec![LayerShape::Linear {
        in_size: usize::MAX,
        out_size: 2,
    }]);
    assert!(r.is_none());

    let r = NetworkShape::from_layers(vec![
        LayerShape::Linear { in_size: 1, out_size: usize::MAX },
        LayerShape::Linear { in_size: 1, out_size: 1 },
    ]);
    assert!(r.is_none());
}

#[test]
fn flat_index_concrete_offsets() {
    let n = net(vec![
        LayerShape::Linear { in_size: 3, out_size: 2 },
        LayerShape::Sigmoid,
        LayerShape::Linear { in_size: 2, out_size: 2 },
    ]);
    assert_eq!(n.flat_index(ParamIndex { layer: 0, param: 0 }), 0);
    assert_eq!(n.flat_index(ParamIndex { layer: 0, param: 5 }), 5);
    assert_eq!(n.flat_index(ParamIndex { layer: 2, param: 0 }), 6);
    assert_eq!(n.flat_index(ParamIndex { layer: 2, param: 3 }), 9);
}

#[test]
fn param_iter_is_flat_order_bijection() {
    let n = net(vec![
        LayerShape::Linear { in_size: 3, out_size: 2 },
        LayerShape::Sigmoid,
        LayerShape::Linear { in_size: 2, out_size: 2 },
    ]);
    let all = n.param_iter();
    assert_eq!(all.len(), n.num_params);
    for (i, p) in all.iter().enumerate() {
        assert!(n.param_valid(*p));
        assert_eq!(n.flat_index(*p), i);
    }
    for i in 0..all.len() {
        for j in 0..i {
            assert_ne!(all[i], all[j]);
        }
    }
    assert_eq!(all[0], ParamIndex { layer: 0, param: 0 });
    assert_eq!(all[5], ParamIndex { layer: 0, param: 5 });
    assert_eq!(all[6], ParamIndex { layer: 2, param: 0 });
    assert_eq!(all[9], ParamIndex { layer: 2, param: 3 });
}

#[test]
fn param_valid_bounds() {
    let n = net(vec![
        LayerShape::Linear { in_size: 2, out_size: 1 },
        LayerShape::Sigmoid,
    ]);
    assert!(n.param_valid(ParamIndex { layer: 0, param: 0 }));
    assert!(n.param_valid(ParamIndex { layer: 0, param: 1 }));
    assert!(!n.param_valid(ParamIndex { layer: 0, param: 2 }));
    assert!(!n.param_valid(ParamIndex { layer: 1, param: 0 }));
    assert!(!n.param_valid(ParamIndex { layer: 2, param: 0 }));
}

#[test]
fn output_len_propagates_widths() {
    let n = net(vec![
        LayerShape::Linear { in_size: 2, out_size: 1 },
        LayerShape::Sigmoid,
    ]);
    assert_eq!(n.output_len(2), Some(1));

    let n = net(vec![LayerShape::Sigmoid]);
    assert_eq!(n.output_len(5), Some(5));

    let n = net(vec![
        LayerShape::Linear { in_size: 3, out_size: 2 },
        LayerShape::Sigmoid,
        LayerShape::Linear { in_size: 2, out_size: 4 },
    ]);
    assert_eq!(n.output_len(3), Some(4));

    let n = net(vec![]);
    assert_eq!(n.output_len(7), Some(7));
}

#[test]
fn output_len_rejects_mismatch() {
    let n = net(vec![
        LayerShape::Linear { in_size: 2, out_size: 1 },
        LayerShape::Sigmoid,
    ]);
    assert_eq!(n.output_len(3), None);
    assert_eq!(n.output_len(0), None);

    let n = net(vec![
        LayerShape::Linear { in_size: 3, out_size: 2 },
        LayerShape::Linear { in_size: 3, out_size: 1 },
    ]);
    assert_eq!(n.output_len(3), None);
}

#[test]
fn weight_cell_row_major() {
    assert_eq!(weight_cell(2, 3, 0, 0), 0);
    assert_eq!(weight_cell(2, 3, 0, 1), 1);
    assert_eq!(weight_cell(2, 3, 1, 0), 2);
    assert_eq!(weight_cell(2, 3, 2, 1), 5);
}

#[test]
fn weight_cell_distinct_cells() {
    let in_size = 3;
    let out_size = 4;
    let mut seen: Vec<usize> = Vec::new();
    for column in 0..out_size {
        for i in 0..in_size {
            let k = weight_cell(in_size, out_size, column, i);
            assert!(k < in_size * out_size);
            assert!(!seen.contains(&k));
            seen.push(k);
        }
    }
    assert_eq!(seen.len(), in_size * out_size);
}

#[test]
fn grad_row_start_layout() {
    assert_eq!(grad_row_start(0, 2), Some(0));
    assert_eq!(grad_row_start(3, 2), Some(6));
    assert_eq!(grad_row_start(usize::MAX, 2), None);
    assert_eq!(grad_row_start(usize::MAX, 0), Some(0));

    let n = net(vec![
        LayerShape::Linear { in_size: 3, out_size: 2 },
        LayerShape::Linear { in_size: 2, out_size: 4 },
    ]);
    assert_eq!(n.grad_buffer_len(4), Some(56));
}

#[test]
fn active_parameter_reaches_only_its_layer() {
    let p = ParamIndex { layer: 1, param: 3 };
    for i in 0..4 {
        let expected = if i == 1 { Some(3) } else { None };
        assert_eq!(active_for_layer(i, Some(p)), expected);
        assert_eq!(active_for_layer(i, None), None);
    }
}

#[test]
fn end_to_end_layout_for_demo_network() {
    // The demonstration network: one affine map from two inputs to one
    // output, followed by a sigmoid.
    let n = net(vec![
        LayerShape::Linear { in_size: 2, out_size: 1 },
        LayerShape::Sigmoid,
    ]);
    assert_eq!(n.num_params, 2);
    assert_eq!(n.output_len(2), Some(1));
    let all = n.param_iter();
    assert_eq!(
        all,
        vec![
            ParamIndex { layer: 0, param: 0 },
            ParamIndex { layer: 0, param: 1 },
        ]
    );
    assert_eq!(n.grad_buffer_len(1), Some(2));
    assert_eq!(grad_row_start(1, 1), Some(1));
}
