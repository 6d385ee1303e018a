use color_avg::aggregate::hsl_geo;
use color_avg::color::{ComputeError, Hsl, Rgb};
use color_avg::driver::{build_record, create_iter};
use color_avg::render::{id, render_css, render_page, usize_to_string, Record};
use css_colors::Color;

fn rgb(r: u8, g: u8, b: u8) -> Rgb {
    Rgb { r, g, b }
}

fn sample_record() -> Record {
    Record {
        id: id(1, 0),
        input: vec![rgb(1, 2, 3)],
        rgb_avg: rgb(4, 5, 6),
        less_mix: rgb(7, 8, 9),
        hsl_geo: rgb(10, 11, 12),
    }
}

/// The atan2 angle, in whole degrees, of the mean of the hues' unit vectors.
fn raw_hue_angle(hues: &[u16]) -> i16 {
    let n = hues.len() as f32;
    let x: f32 = hues.iter().map(|&h| (h as f32).to_radians().cos()).sum::<f32>() / n;
    let y: f32 = hues.iter().map(|&h| (h as f32).to_radians().sin()).sum::<f32>() / n;
    f32::atan2(y, x).to_degrees() as i16
}

#[test]
fn numbers_format_as_decimal() {
    assert_eq!(usize_to_string(0), "0");
    assert_eq!(usize_to_string(7), "7");
    assert_eq!(usize_to_string(360), "360");
}

#[test]
fn record_ids_join_size_and_round() {
    assert_eq!(id(3, 7), "3-7");
    assert_eq!(id(12, 0), "12-0");
}

#[test]
fn css_lists_every_swatch_under_the_record_class() {
    let expected = "\
.record-1-0 .input-0 {\n    background-color: rgb(1, 2, 3);\n}\n\
.record-1-0 .rgb-avg {\n    background-color: rgb(4, 5, 6);\n}\n\
.record-1-0 .less-mix {\n    background-color: rgb(7, 8, 9);\n}\n\
.record-1-0 .hsl-geo {\n    background-color: rgb(10, 11, 12);\n}\n";
    assert_eq!(sample_record().to_css(), expected);
}

#[test]
fn html_nests_swatch_placeholders_in_the_record_container() {
    let expected = "\
<div class='record record-1-0'>\n    <div class='inputs'>\n    \
<div class='input input-0'></div>\n\n    </div>\n    <div class='outputs'>\n        \
<div class='output rgb-avg'></div>\n        <div class='output less-mix'></div>\n        \
<div class='output hsl-geo'></div>\n    </div>\n</div>\n";
    assert_eq!(sample_record().to_html(), expected);
}

#[test]
fn schedule_covers_every_size_and_round() {
    let pairs = create_iter(5, 10);
    assert_eq!(pairs.len(), 40);
    assert_eq!(pairs[0], (2, 0));
    assert_eq!(pairs[9], (2, 9));
    assert_eq!(pairs[10], (3, 0));
    assert_eq!(pairs[39], (5, 9));
    assert!(create_iter(1, 10).is_empty());
}

#[test]
fn record_building_computes_aggregates_and_falls_back_to_black() {
    let input = vec![rgb(10, 20, 30), rgb(30, 40, 50)];
    let rec = build_record(id(2, 0), input.clone(), Err(ComputeError::Fault));
    assert_eq!(rec.id, "2-0");
    assert_eq!(rec.input, input);
    assert_eq!(rec.rgb_avg, rgb(20, 30, 40));
    assert_eq!(rec.less_mix, rgb(20, 30, 40));
    assert_eq!(rec.hsl_geo, rgb(0, 0, 0));
}

#[test]
fn full_run_renders_forty_records_carrying_their_ids() {
    let pairs = create_iter(5, 10);
    assert_eq!(pairs.len(), 40);
    let mut seen = 0;
    let mut records = Vec::new();
    for (i, &(input_len, round)) in pairs.iter().enumerate() {
        let input: Vec<Rgb> = (0..input_len)
            .map(|j| {
                let k = (i * 31 + j * 7) as u8 % 254;
                rgb(k, k.wrapping_mul(3) % 254, k.wrapping_mul(5) % 254)
            })
            .collect();
        let hsls: Vec<Hsl> = input
            .iter()
            .map(|c| {
                let h = css_colors::rgb(c.r, c.g, c.b).to_hsl();
                Hsl { h: h.h.degrees(), s: h.s.as_u8(), l: h.l.as_u8() }
            })
            .collect();
        let hues: Vec<u16> = hsls.iter().map(|x| x.h).collect();
        let geo = hsl_geo(&hsls, raw_hue_angle(&hues));
        let rid = id(input_len, round);
        let rec = build_record(rid.clone(), input, geo);
        let css = rec.to_css();
        let html = rec.to_html();
        assert!(!css.is_empty());
        assert!(!html.is_empty());
        let selector = format!(".record-{} .", rid);
        assert_eq!(css.matches(&selector).count(), input_len + 3);
        assert_eq!(css.matches(".record-").count(), input_len + 3);
        assert!(html.contains(&format!("<div class='record record-{}'>", rid)));
        seen += 1;
        records.push(rec);
    }
    assert_eq!(seen, 40);
    let css_all = render_css(&records);
    let page = render_page(&records);
    assert!(page.starts_with("<html>"));
    assert!(page.ends_with("</html>"));
    for rec in &records {
        assert!(css_all.contains(&format!(".record-{} .", rec.id)));
        assert!(page.contains(&format!("record-{}'", rec.id)));
    }
}
