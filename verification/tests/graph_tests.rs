use ma_labs::graph::Matrix;

#[test]
fn fill_lists_every_unordered_pair() {
    let mut m = Matrix::default();
    m.resize(4);
    m.fill();
    let edges = m.edges();
    assert_eq!(edges, vec![(1, 0), (2, 0), (2, 1), (3, 0), (3, 1), (3, 2)]);
}

#[test]
fn empty_clears_every_edge() {
    let mut m = Matrix::default();
    m.resize(4);
    m.fill();
    m.empty();
    assert_eq!(m.edges(), vec![]);
    for i in 0..4 {
        for j in 0..4 {
            if i != j {
                assert!(!m.has_edge(i, j));
            }
        }
    }
}

#[test]
fn set_edge_is_symmetric_in_any_order() {
    let mut m = Matrix::default();
    m.resize(5);
    m.set_edge(0, 3, true);
    m.set_edge(4, 1, true);
    m.set_edge(2, 3, true);
    m.set_edge(3, 0, false);
    m.set_edge(1, 2, true);
    for i in 0..5 {
        for j in 0..5 {
            if i != j {
                assert_eq!(m.has_edge(i, j), m.has_edge(j, i));
            }
        }
    }
    assert!(!m.has_edge(0, 3));
    assert!(m.has_edge(1, 4));
    assert!(m.has_edge(3, 2));
    assert!(m.has_edge(2, 1));
    assert_eq!(m.edges(), vec![(2, 1), (3, 2), (4, 1)]);
}

#[test]
fn randomize_keeps_shape_and_symmetry() {
    let mut m = Matrix::default();
    m.resize(10);
    m.randomize();
    assert_eq!(m.vertices, 10);
    assert_eq!(m.inner.len(), 10);
    for (i, row) in m.inner.iter().enumerate() {
        assert_eq!(row.len(), i + 1);
        assert!(!row[i]);
    }
    for i in 0..10 {
        for j in 0..10 {
            if i != j {
                assert_eq!(m.has_edge(i, j), m.has_edge(j, i));
            }
        }
    }
}

#[test]
fn graph_resize_at_configured_bounds() {
    let mut m = Matrix::default();
    m.resize(1);
    assert_eq!(m.vertices, 1);
    assert_eq!(m.edges(), vec![]);
    m.resize(15);
    assert_eq!(m.vertices, 15);
    assert_eq!(m.inner.len(), 15);
    for (i, row) in m.inner.iter().enumerate() {
        assert_eq!(row.len(), i + 1);
    }
    assert_eq!(m.edges(), vec![]);
    m.fill();
    assert_eq!(m.edges().len(), 15 * 14 / 2);
}

#[test]
fn layout_radius_follows_the_step_function() {
    let mut m = Matrix::default();
    let expected = [
        (1usize, 0u32),
        (2, 100),
        (8, 100),
        (9, 125),
        (12, 125),
        (13, 150),
        (15, 150),
    ];
    for &(count, radius) in &expected {
        m.resize(count);
        assert_eq!(m.layout_radius_hundredths(), radius);
    }
}

#[test]
fn single_vertex_sits_at_the_origin() {
    let mut m = Matrix::default();
    m.resize(1);
    let radius = m.layout_radius_hundredths() as f64 / 100.0;
    let angle = (360.0 / 1.0f64) * 0.0;
    let (x, y) = (radius * angle.cos(), radius * angle.sin());
    assert_eq!(x, 0.0);
    assert_eq!(y, 0.0);
}

#[test]
fn eight_vertices_sit_on_the_unit_circle() {
    let mut m = Matrix::default();
    m.resize(8);
    let radius = m.layout_radius_hundredths() as f64 / 100.0;
    for i in 0..8 {
        let angle = ((360.0 / 8.0f64) * i as f64).to_radians();
        let (x, y) = (radius * angle.cos(), radius * angle.sin());
        let distance = (x * x + y * y).sqrt();
        assert!((distance - 1.0).abs() < 1e-9);
    }
}

#[test]
fn set_edge_on_the_diagonal_is_a_no_op() {
    let mut m = Matrix::new(3);
    m.fill();
    let before = m.edges();
    m.set_edge(1, 1, false);
    m.set_edge(2, 2, true);
    assert_eq!(m.edges(), before);
}

#[test]
fn new_store_has_no_edges() {
    let m = Matrix::new(7);
    assert_eq!(m.vertices, 7);
    assert_eq!(m.edges(), vec![]);
}
