use flycam::fx::{Fixed, SCALE};
use flycam::trig::{cos_deg, sin_deg};
use flycam::vec3::Vec3;

fn fx(raw: i64) -> Fixed {
    Fixed::from_raw(raw)
}

#[test]
fn fixed_add_sub_neg() {
    assert_eq!(fx(1_500_000).add(fx(250_000)).raw, 1_750_000);
    assert_eq!(fx(1_500_000).sub(fx(2_000_000)).raw, -500_000);
    assert_eq!(fx(-3_000_000).neg().raw, 3_000_000);
    assert_eq!(Fixed::zero().raw, 0);
}

#[test]
fn fixed_mul_exact() {
    // 1.5 * 1.5 == 2.25
    assert_eq!(fx(1_500_000).mul(fx(1_500_000)).raw, 2_250_000);
    // -1.5 * 1.5 == -2.25
    assert_eq!(fx(-1_500_000).mul(fx(1_500_000)).raw, -2_250_000);
    // multiplying by one is exact
    assert_eq!(fx(123_456_789).mul(fx(SCALE)).raw, 123_456_789);
}

#[test]
fn fixed_mul_rounds_toward_zero() {
    // one millionth squared truncates to zero, from both sides
    assert_eq!(fx(1).mul(fx(1)).raw, 0);
    assert_eq!(fx(-1).mul(fx(1)).raw, 0);
    // 0.3 * 0.0000015 = 0.00000045 -> 0.0000004 toward zero; negated, -0.0000004
    assert_eq!(fx(300_000).mul(fx(1_500)).raw, 450);
    assert_eq!(fx(-300_000).mul(fx(1_500)).raw, -450);
    assert_eq!(fx(333_333).mul(fx(1)).raw, 0);
    assert_eq!(fx(-333_333).mul(fx(1)).raw, 0);
}

#[test]
fn vec3_componentwise_ops() {
    let a = Vec3::new(fx(1_000_000), fx(2_000_000), fx(-500_000));
    let b = Vec3::new(fx(250_000), fx(-250_000), fx(1_000_000));
    let sum = a.add(b);
    assert_eq!(
        (sum.x.raw, sum.y.raw, sum.z.raw),
        (1_250_000, 1_750_000, 500_000)
    );
    let diff = a.sub(b);
    assert_eq!(
        (diff.x.raw, diff.y.raw, diff.z.raw),
        (750_000, 2_250_000, -1_500_000)
    );
    let scaled = a.scale(fx(500_000));
    assert_eq!(
        (scaled.x.raw, scaled.y.raw, scaled.z.raw),
        (500_000, 1_000_000, -250_000)
    );
    let neg = a.neg();
    assert_eq!(
        (neg.x.raw, neg.y.raw, neg.z.raw),
        (-1_000_000, -2_000_000, 500_000)
    );
}

#[test]
fn vec3_dot_and_cross() {
    let x_axis = Vec3::new(fx(SCALE), fx(0), fx(0));
    let y_axis = Vec3::new(fx(0), fx(SCALE), fx(0));
    let c = x_axis.cross(y_axis);
    assert_eq!((c.x.raw, c.y.raw, c.z.raw), (0, 0, SCALE));
    assert_eq!(x_axis.dot(y_axis).raw, 0);
    let a = Vec3::new(fx(2_000_000), fx(3_000_000), fx(-1_000_000));
    let b = Vec3::new(fx(500_000), fx(-1_000_000), fx(2_000_000));
    // 2*0.5 - 3*1 - 1*2 == -4
    assert_eq!(a.dot(b).raw, -4_000_000);
}

#[test]
fn normalize_three_four_five() {
    let v = Vec3::new(fx(3_000_000), fx(4_000_000), fx(0));
    let n = v.normalize();
    assert_eq!((n.x.raw, n.y.raw, n.z.raw), (600_000, 800_000, 0));
}

#[test]
fn normalize_zero_stays_zero() {
    let n = Vec3::zero().normalize();
    assert_eq!((n.x.raw, n.y.raw, n.z.raw), (0, 0, 0));
}

#[test]
fn sine_exact_points() {
    assert_eq!(sin_deg(fx(0)).raw, 0);
    assert_eq!(sin_deg(fx(90_000_000)).raw, SCALE);
    assert_eq!(sin_deg(fx(180_000_000)).raw, 0);
    assert_eq!(sin_deg(fx(270_000_000)).raw, -SCALE);
    assert_eq!(sin_deg(fx(-90_000_000)).raw, -SCALE);
    // the approximation is exact at thirty degrees too
    assert_eq!(sin_deg(fx(30_000_000)).raw, 500_000);
    assert_eq!(sin_deg(fx(150_000_000)).raw, 500_000);
    assert_eq!(sin_deg(fx(-30_000_000)).raw, -500_000);
    // a full turn away, the same value
    assert_eq!(sin_deg(fx(390_000_000)).raw, 500_000);
}

#[test]
fn cosine_exact_points() {
    assert_eq!(cos_deg(fx(0)).raw, SCALE);
    assert_eq!(cos_deg(fx(90_000_000)).raw, 0);
    assert_eq!(cos_deg(fx(-90_000_000)).raw, 0);
    assert_eq!(cos_deg(fx(180_000_000)).raw, -SCALE);
    assert_eq!(cos_deg(fx(60_000_000)).raw, 500_000);
    assert_eq!(cos_deg(fx(-60_000_000)).raw, 500_000);
}

#[test]
fn sine_formula_value_at_forty_five() {
    // Bhaskara's formula at 45 degrees: 4*45*135 / (40500 - 45*135) scaled
    assert_eq!(sin_deg(fx(45_000_000)).raw, 705_882);
}

#[test]
fn cosine_is_sine_shifted_a_quarter_turn() {
    let mut d: i64 = -400_000_000;
    while d <= 400_000_000 {
        assert_eq!(cos_deg(fx(d)).raw, sin_deg(fx(d + 90_000_000)).raw);
        d += 13_000_000;
    }
}

#[test]
fn trig_stays_within_unit() {
    let mut d: i64 = -720_000_000;
    while d <= 720_000_000 {
        let s = sin_deg(fx(d)).raw;
        let c = cos_deg(fx(d)).raw;
        assert!(-SCALE <= s && s <= SCALE);
        assert!(-SCALE <= c && c <= SCALE);
        d += 7_000_000;
    }
}
