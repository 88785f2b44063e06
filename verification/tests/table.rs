use dcc_decoder::cv::default_values;
use dcc_decoder::cv::image::CvImage;
use dcc_decoder::motor::speed::table::{build, Config};

#[test]
fn table_matches_index_in_simple_first_segment_case() {
    // Choose v_start=1 and v_mid=64 so the first segment (indices 1..=63)
    // evaluates exactly to the index value due to the rounding scheme.
    let cfg = Config {
        v_start: 1,
        v_mid: 64,
        v_high: 126,
    };
    let table = build(cfg);

    // index 0 is always 0
    assert_eq!(
        table.as_slice(),
        &[
            0, 1, 17, 33, 50, 66, 82, 98, 115, 131, 147, 163, 180, 196, 212, 228, 245, 261,
            277, 293, 310, 326, 342, 358, 374, 391, 407, 423, 439, 456, 472, 488, 504, 521,
            537, 553, 569, 586, 602, 618, 634, 651, 667, 683, 699, 715, 732, 748, 764, 780,
            797, 813, 829, 845, 862, 878, 894, 910, 927, 943, 959, 975, 992, 1008, 1040, 1055,
            1071, 1087, 1103, 1118, 1134, 1150, 1166, 1181, 1197, 1213, 1229, 1244, 1260, 1276,
            1292, 1307, 1323, 1339, 1355, 1370, 1386, 1402, 1418, 1433, 1449, 1465, 1481, 1496,
            1512, 1528, 1544, 1559, 1575, 1591, 1607, 1622, 1638, 1654, 1670, 1685, 1701, 1717,
            1733, 1748, 1764, 1780, 1796, 1811, 1827, 1843, 1859, 1874, 1890, 1906, 1922, 1937,
            1953, 1969, 1985, 2000, 2016
        ]
    );

    assert_eq!(table[0], 0);
    assert_eq!(table[126], 126 * 16);
}

#[test]
fn two_segment_table_with_different_slopes() {
    // Slopes: (50-10) != (200-50)
    let cfg = Config {
        v_start: 10,
        v_mid: 50,
        v_high: 200,
    };

    let table = build(cfg);

    // First segment endpoints and some midpoints
    assert_eq!(table[1], 10);
    assert_eq!(table[63], 787);

    // Second segment start, midpoint step, and end
    assert_eq!(table[64], 838);
    assert_eq!(table[126], 200 * 16); // should be exactly v_high
}

#[test]
fn table_agrees_with_floating_point() {
    let calc_step = |start: f32, end: f32, idx: usize| -> u16 {
        let m = (end - start) / 63.0;
        let val = m * idx as f32 + start;
        (val.clamp(0.0, u16::MAX as f32) + 0.5) as u16
    };
    for v_start in [0u8, 1, 77, 255] {
        for v_mid in [0u8, 3, 50, 255] {
            for v_high in [0u8, 10, 200, 255] {
                let table = build(Config { v_start, v_mid, v_high });
                let (low, mid, high) =
                    (v_start as f32, v_mid as f32 * 16.0, v_high as f32 * 16.0);
                for i in 1..=63 {
                    assert_eq!(table[i], calc_step(low, mid, i - 1));
                }
                for i in 64..=126 {
                    assert_eq!(table[i], calc_step(mid, high, i - 63));
                }
            }
        }
    }
}

#[test]
fn table_from_store() {
    let store = CvImage::new(default_values()).unwrap();
    let config = Config::read(&store).unwrap();
    assert_eq!(config, Config { v_start: 0, v_mid: 60, v_high: 100 });
    let table = build(config);
    assert_eq!(table[126], 1600);
    assert!(table.windows(2).all(|w| w[0] <= w[1]));
}
