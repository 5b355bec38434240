use mc_cli::backtest::axis::{coef_points, AxisSpec, AxisTarget};
use mc_cli::backtest::grid::{decode_cell, grid_total};
use mc_cli::backtest::table::{goal_word, push_keys_obj, render_table};
use mc_cli::backtest::Goal;

const TOL: f64 = 1e-9;

#[test]
fn t_decode_cell_first_axis_slowest() {
    // Two axes: A=[0,1], B=[10,20]. Grid order (first slowest):
    // (0,10),(0,20),(1,10),(1,20).
    let points: Vec<Vec<f64>> = vec![vec![0.0, 1.0], vec![10.0, 20.0]];
    let lens: Vec<usize> = points.iter().map(|p| p.len()).collect();
    let expect = [[0.0, 10.0], [0.0, 20.0], [1.0, 10.0], [1.0, 20.0]];
    for (idx, e) in expect.iter().enumerate() {
        let pos = decode_cell(&lens, idx);
        let got: Vec<f64> = pos.iter().enumerate().map(|(i, &k)| points[i][k]).collect();
        assert!((got[0] - e[0]).abs() < TOL && (got[1] - e[1]).abs() < TOL, "cell {idx}");
    }
}

#[test]
fn grid_numbering_round_trips_over_the_whole_grid() {
    let lens = vec![3usize, 1, 4, 2];
    let total = grid_total(&lens).unwrap();
    assert_eq!(total, 24);
    for idx in 0..total {
        let d = decode_cell(&lens, idx);
        let mut back = 0usize;
        for (i, &k) in d.iter().enumerate() {
            assert!(k < lens[i]);
            back = back * lens[i] + k;
        }
        assert_eq!(back, idx);
    }
}

#[test]
fn grid_total_products_and_overflow() {
    assert_eq!(grid_total(&[]), Ok(1));
    assert_eq!(grid_total(&[5, 0, 7]), Ok(0));
    assert_eq!(grid_total(&[usize::MAX, 2]), Err("grid size overflows usize".to_string()));
    // The running product overflows before the zero axis is reached.
    assert!(grid_total(&[usize::MAX, 2, 0]).is_err());
}

#[test]
fn render_table_pads_and_separates() {
    let headers = vec!["cell".to_string(), "roi".to_string()];
    let rows = vec![
        vec!["a=1".to_string(), "0.125".to_string()],
        vec!["a=20".to_string()],
        vec!["é".to_string(), "x".to_string(), "ignored".to_string()],
    ];
    let t = render_table(&headers, &rows);
    assert_eq!(
        t,
        "cell | roi\n-----+------\na=1  | 0.125\na=20 |\né    | x\n"
    );
}

#[test]
fn goal_words_and_key_objects() {
    assert_eq!(goal_word(Goal::Maximize), "max");
    assert_eq!(goal_word(Goal::Minimize), "min");
    let mut out = String::new();
    push_keys_obj(&mut out, &[("side".to_string(), "home".to_string()), ("q\"".to_string(), "a\nb".to_string())]);
    assert_eq!(out, "{\"side\": \"home\", \"q\\\"\": \"a\\nb\"}");
    let mut empty = String::new();
    push_keys_obj(&mut empty, &[]);
    assert_eq!(empty, "{}");
}

#[test]
fn axis_specs_split_into_target_and_points() {
    let a = AxisSpec::parse("param: edge =0:1:0.25").unwrap();
    assert!(matches!(a.target, AxisTarget::Param { ref name } if name == "edge"));
    assert_eq!(a.value_spec, "0:1:0.25");
    assert_eq!(a.label(), "param:edge");
    let c = AxisSpec::parse("coef:m.beta=1x0.5:1.5:0.5").unwrap();
    assert!(matches!(c.target, AxisTarget::Coef { ref model, ref coef } if model == "m" && coef == "beta"));
    assert_eq!(c.label(), "coef:m.beta");
    assert_eq!(coef_points("m.beta", &c.value_spec), Ok(("0.5:1.5:0.5".to_string(), true)));
    assert_eq!(coef_points("m.beta", "[1,2]"), Ok(("[1,2]".to_string(), false)));
    let i = AxisSpec::parse("input: Spend @Time=2025=0:5:1").unwrap();
    assert!(matches!(i.target, AxisTarget::Input { ref measure, ref coord } if measure == "Spend" && coord == "Time=2025"));
    assert_eq!(i.value_spec, "0:5:1");
    assert_eq!(i.label(), "input:Spend");
}

#[test]
fn axis_spec_refusals() {
    assert_eq!(
        AxisSpec::parse("edge=1").unwrap_err(),
        "--sweep \"edge=1\": missing axis kind (param:/coef:/input:)"
    );
    assert_eq!(AxisSpec::parse("param:edge").unwrap_err(), "--sweep \"param:edge\": missing '=<value-spec>'");
    assert_eq!(AxisSpec::parse("coef:beta=1:2:1").unwrap_err(), "--sweep coef:beta: expected coef:<model>.<name>");
    assert_eq!(
        AxisSpec::parse("input:Spend=1:2:1").unwrap_err(),
        "--sweep input:Spend: expected input:<measure>@<k=v,...>"
    );
    assert_eq!(
        AxisSpec::parse("knob:x=1").unwrap_err(),
        "--sweep \"knob:x=1\": unknown axis kind \"knob\" (expected param, coef, or input)"
    );
    assert_eq!(
        coef_points("m.b", "ax1:2:1").unwrap_err(),
        "--sweep coef:m.b: multiplier form is <nominal>x<lo>:<hi>:<step>; \"a\" before 'x' is not a number"
    );
}
