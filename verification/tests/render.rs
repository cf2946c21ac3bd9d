use erased_cells::render;
use erased_cells::render::{elide_shown, shown_positions};

fn texts(values: &[i32]) -> Vec<String> {
    values.iter().map(|v| format!("{:?}", v)).collect()
}

#[test]
fn elided() {
    let s = erased_cells::elided(&texts(&[1; 3]));
    assert_eq!(s, "1, 1, 1");
    let s = erased_cells::elided(&texts(&[0; 30]));
    assert_eq!(s, "0, 0, 0, 0, 0, ... 0, 0, 0, 0, 0");
}

#[test]
fn elision_starts_above_ten_items() {
    assert_eq!(render::elided(&texts(&[])), "");
    assert_eq!(render::elided(&texts(&[7])), "7");
    let ten: Vec<i32> = (0..10).collect();
    assert_eq!(render::elided(&texts(&ten)), "0, 1, 2, 3, 4, 5, 6, 7, 8, 9");
    let eleven: Vec<i32> = (0..11).collect();
    assert_eq!(render::elided(&texts(&eleven)), "0, 1, 2, 3, 4, ... 6, 7, 8, 9, 10");
}

#[test]
fn shown_items_give_the_same_text() {
    for n in [0usize, 1, 5, 10, 11, 12, 40] {
        let all: Vec<i32> = (0..n as i32).collect();
        let positions = shown_positions(n);
        let picked: Vec<i32> = positions.iter().map(|&p| all[p]).collect();
        assert_eq!(elide_shown(&texts(&picked), n), render::elided(&texts(&all)), "{n}");
    }
    assert_eq!(shown_positions(12), vec![0, 1, 2, 3, 4, 7, 8, 9, 10, 11]);
    assert_eq!(shown_positions(3), vec![0, 1, 2]);
}
