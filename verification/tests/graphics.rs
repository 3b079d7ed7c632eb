use rusty::graphics::{Canvas, Color, ColorError, Pixel};
use rusty::math::scalar::Scalar;

#[test]
fn color_init() {
    assert_eq!(
        "#01020310".parse::<Color>(),
        Ok(Color {
            r: 0x01,
            g: 0x02,
            b: 0x03,
            a: 0x10,
        })
    );
    assert_eq!(
        "#FF1493".parse::<Color>(),
        Ok(Color {
            r: 0xff,
            g: 0x14,
            b: 0x93,
            a: 0xff,
        })
    );
    assert_eq!("nope".parse::<Color>(), Err(ColorError::InvalidColorError));
    assert!("#42".parse::<Color>().is_err());
}

#[test]
fn color_bad_digits() {
    assert_eq!("#GG0000".parse::<Color>(), Err(ColorError::ConversionError));
    assert_eq!("#0000zz".parse::<Color>(), Err(ColorError::ConversionError));
}

#[test]
fn color_add() {
    assert_eq!(
        "#112244".parse::<Color>().unwrap().add("#112244".parse::<Color>().unwrap()),
        "#224488".parse::<Color>().unwrap()
    );
    assert_eq!(
        "#FFFF00".parse::<Color>().unwrap().add("#00FF80".parse::<Color>().unwrap()),
        "#FFFF80".parse::<Color>().unwrap()
    )
}

#[test]
fn color_add_saturates() {
    let full = Color {
        r: 0xff,
        g: 0xff,
        b: 0xff,
        a: 0xff,
    };
    assert_eq!(full.add(full), full);
    let high = Color {
        r: 0xf0,
        g: 0x10,
        b: 0x80,
        a: 0xff,
    };
    assert_eq!(
        high.add(high),
        Color {
            r: 0xff,
            g: 0x20,
            b: 0xff,
            a: 0xff,
        }
    );
}

#[test]
fn color_mult() {
    assert_eq!(
        "#222222".parse::<Color>().unwrap().mul_scalar(Scalar::from_ratio(1, 2)),
        "#111111".parse::<Color>().unwrap()
    );
    assert_eq!(
        "#222222".parse::<Color>().unwrap().mul_scalar(Scalar::from_int(1)),
        "#222222".parse::<Color>().unwrap()
    );
    assert_eq!(
        "#222222".parse::<Color>().unwrap().mul_scalar(Scalar::from_int(2)),
        "#444444".parse::<Color>().unwrap()
    );

    assert_eq!(
        "#222222".parse::<Color>().unwrap().mul("#00FF80".parse::<Color>().unwrap()),
        "#002211".parse::<Color>().unwrap()
    )
}

#[test]
fn color_mult_scalar_saturates() {
    let c = "#808080".parse::<Color>().unwrap();
    assert_eq!(
        c.mul_scalar(Scalar::from_int(1000)),
        Color {
            r: 0xff,
            g: 0xff,
            b: 0xff,
            a: 0xff,
        }
    );
}

#[test]
fn canvas_manipulation() {
    let color = Color {
        r: 0xff,
        g: 0xff,
        b: 0xff,
        a: 0xff,
    };
    let mut canvas = Canvas::new(1, 1);
    assert_eq!(canvas.get(0, 0), Pixel::Blank);
    canvas.set(0, 0, color);
    assert_eq!(canvas.get(0, 0), Pixel::Data(color));
    canvas.unset(0, 0);
    assert_eq!(canvas.get(0, 0), Pixel::Blank);
}

#[test]
fn canvas_out_of_range_reads_blank() {
    let mut canvas = Canvas::new(2, 3);
    assert_eq!(canvas.get(2, 0), Pixel::Blank);
    assert_eq!(canvas.get(0, 3), Pixel::Blank);
    let color = Color {
        r: 1,
        g: 2,
        b: 3,
        a: 4,
    };
    assert!(!canvas.set(2, 0, color));
    assert!(!canvas.dirty);
    assert!(canvas.set(1, 2, color));
    assert!(canvas.dirty);
    assert_eq!(canvas.get(1, 2), Pixel::Data(color));
    assert_eq!(canvas.get(0, 0), Pixel::Blank);
}
