use unsegen::base::{
    BoolModifyMode, ColIndex, CursorTarget, GraphemeCluster, Height, RowIndex, StyleModifier, Width,
    Window, WindowBuffer,
};
use unsegen::input::{Editable, Navigatable, Writable};
use unsegen::widget::builtin::{TextBound, TextEdit, TextElement, TextTarget};
use unsegen::widget::{Blink, RenderingHints};

/// The buffer's clusters, row by row, rows separated by '|', bold clusters between '*'.
fn render(buf: &Window) -> String {
    let mut s = String::new();
    let h = buf.get_height().raw_value();
    for y in 0..h {
        for x in 0..buf.get_width().raw_value() {
            let c = buf.get_cell(ColIndex::new(x), RowIndex::new(y)).unwrap();
            if c.style.format().bold {
                s.push('*');
                s.push_str(c.grapheme_cluster.as_str());
                s.push('*');
            } else {
                s.push_str(c.grapheme_cluster.as_str());
            }
        }
        if y != h - 1 {
            s.push('|');
        }
    }
    s
}

fn test_textedit<F: Fn(&mut TextEdit)>(window_dim: (i32, i32), after: &str, action: F) {
    let mut buf_storage = WindowBuffer::new(
        Width::new(window_dim.0).unwrap(),
        Height::new(window_dim.1).unwrap(),
    );
    let mut buf = buf_storage.as_window();
    buf.fill(GraphemeCluster::try_from('_').unwrap());
    let mut textedit = TextEdit::new();
    action(&mut textedit);
    textedit
        .as_widget()
        .cursor_blink_on(StyleModifier::new().bold(BoolModifyMode::True))
        .draw(
            &mut buf,
            RenderingHints::default().active(true).blink(Blink::On),
        );
    assert_eq!(render(&buf), after);
}

fn from(t: TextTarget) -> (TextBound, TextBound) {
    (TextBound::Included(t), TextBound::Unbounded)
}

fn up_to(t: TextTarget) -> (TextBound, TextBound) {
    (TextBound::Unbounded, TextBound::Excluded(t))
}

fn up_to_incl(t: TextTarget) -> (TextBound, TextBound) {
    (TextBound::Unbounded, TextBound::Included(t))
}

const ALL: (TextBound, TextBound) = (TextBound::Unbounded, TextBound::Unbounded);

fn get(t: &TextEdit, r: (TextBound, TextBound)) -> String {
    t.get(r.0, r.1)
}

#[test]
fn test_set_truncate() {
    test_textedit((3, 1), "d* *_", |t| {
        t.set("abc");
        t.set("d");
    });
}

#[test]
fn test_get() {
    test_textedit((5, 2), "*a*b cd|efg h", |t| {
        t.set("ab cd\nefg h");
        assert_eq!(get(t, ALL), "ab cd\nefg h");
        assert_eq!(
            get(t, from(TextTarget::backward(TextElement::GraphemeCluster).nth(2))),
            " h"
        );
        assert_eq!(get(t, from(TextTarget::backward(TextElement::WORDBegin))), "h");
        assert_eq!(
            get(t, from(TextTarget::backward(TextElement::LineSeparator))),
            "efg h"
        );

        t.move_cursor_to(TextTarget::backward(TextElement::DocumentBoundary))
            .unwrap();
        assert_eq!(get(t, ALL), "ab cd\nefg h");
        assert_eq!(
            get(t, up_to(TextTarget::backward(TextElement::LineSeparator))),
            ""
        );
        assert_eq!(
            get(t, up_to_incl(TextTarget::backward(TextElement::LineSeparator))),
            "a"
        );
        assert_eq!(
            get(t, up_to_incl(TextTarget::forward(TextElement::WORDEnd).nth(2))),
            "ab cd"
        );
        assert_eq!(
            get(t, up_to(TextTarget::forward(TextElement::LineSeparator).nth(2))),
            "ab cd"
        );
    });
}

#[test]
fn test_delete() {
    test_textedit((5, 2), "* *____|_____", |t| {
        t.set("ab cd\nefg h");
        t.delete(TextBound::Unbounded, TextBound::Unbounded)
    });
    test_textedit((5, 2), "ab * *_|efg h", |t| {
        t.set("ab cd\nefg h");
        t.move_cursor_to(TextTarget::backward(TextElement::DocumentBoundary))
            .unwrap();
        t.move_cursor_to(TextTarget::forward(TextElement::WORDBegin))
            .unwrap();

        t.delete(
            TextBound::Included(TextTarget::cursor()),
            TextBound::Excluded(TextTarget::forward(TextElement::LineSeparator)),
        )
    });
}

#[test]
fn test_single_line_simple() {
    test_textedit((5, 1), "abc* *_", |t| {
        t.write('a').unwrap();
        t.write('b').unwrap();
        t.write('c').unwrap();
    });
    test_textedit((5, 1), "a沐c* *", |t| {
        t.write('a').unwrap();
        t.write('沐').unwrap();
        t.write('c').unwrap();
    });
}

#[test]
fn test_single_line_move() {
    test_textedit((5, 1), "abd*c*_", |t| {
        t.write('a').unwrap();
        t.write('b').unwrap();
        t.write('c').unwrap();
        t.move_cursor_left().unwrap();
        t.write('d').unwrap();
    });
    test_textedit((5, 1), "ab沐*c*", |t| {
        t.write('a').unwrap();
        t.write('b').unwrap();
        t.write('c').unwrap();
        t.move_cursor_left().unwrap();
        t.write('沐').unwrap();
    });
    test_textedit((5, 1), "ad*b*c_", |t| {
        t.write('a').unwrap();
        t.write('b').unwrap();
        t.write('c').unwrap();
        t.move_cursor_to(TextTarget::backward(TextElement::LineSeparator))
            .unwrap();
        t.move_cursor_right().unwrap();
        t.write('d').unwrap();
    });
    test_textedit((5, 1), "abc* *_", |t| {
        t.write('a').unwrap();
        t.write('b').unwrap();
        t.write('c').unwrap();
        t.move_cursor_left().unwrap();
        t.move_cursor_to(TextTarget::forward(TextElement::LineSeparator))
            .unwrap();
    });
}

#[test]
fn test_single_line_delete() {
    test_textedit((5, 1), "a*c*___", |t| {
        t.write('a').unwrap();
        t.write('b').unwrap();
        t.write('c').unwrap();
        t.move_cursor_left().unwrap();
        t.move_cursor_left().unwrap();
        t.delete_forwards().unwrap();
    });
    test_textedit((5, 1), "*沐***c__", |t| {
        t.write('a').unwrap();
        t.write('沐').unwrap();
        t.write('c').unwrap();
        t.move_cursor_left().unwrap();
        t.move_cursor_left().unwrap();
        t.move_cursor_left().unwrap();
        t.delete_forwards().unwrap();
    });
}

#[test]
fn test_single_line_backspace() {
    test_textedit((5, 1), "*b*c___", |t| {
        t.write('a').unwrap();
        t.write('b').unwrap();
        t.write('c').unwrap();
        t.move_cursor_left().unwrap();
        t.move_cursor_left().unwrap();
        t.delete_backwards().unwrap();
    });
    test_textedit((5, 1), "a*c*___", |t| {
        t.write('a').unwrap();
        t.write('沐').unwrap();
        t.write('c').unwrap();
        t.move_cursor_left().unwrap();
        t.delete_backwards().unwrap();
    });
}

#[test]
fn test_single_line_long() {
    test_textedit((5, 1), "cdef* *", |t| {
        t.write('a').unwrap();
        t.write('沐').unwrap();
        t.write('c').unwrap();
        t.write('d').unwrap();
        t.write('e').unwrap();
        t.write('f').unwrap();
    });
    test_textedit((5, 1), "沐de*f*", |t| {
        t.write('a').unwrap();
        t.write('b').unwrap();
        t.write('沐').unwrap();
        t.write('d').unwrap();
        t.write('e').unwrap();
        t.write('f').unwrap();
        t.move_cursor_left().unwrap();
    });
    test_textedit((5, 1), "*a*b沐d", |t| {
        t.write('a').unwrap();
        t.write('b').unwrap();
        t.write('沐').unwrap();
        t.write('d').unwrap();
        t.write('e').unwrap();
        t.write('f').unwrap();
        t.move_cursor_to(TextTarget::backward(TextElement::LineSeparator))
            .unwrap();
    });
}

#[test]
fn test_multi_line_simple() {
    test_textedit((2, 5), "a_|b_|c_|d_|e* *", |t| {
        t.write('a').unwrap();
        t.write('\n').unwrap();
        t.write('b').unwrap();
        t.write('\n').unwrap();
        t.write('c').unwrap();
        t.write('\n').unwrap();
        t.write('d').unwrap();
        t.write('\n').unwrap();
        t.write('e').unwrap();
    });

    test_textedit((2, 5), "a_|b_|c_|* *_|__", |t| {
        t.write('a').unwrap();
        t.write('\n').unwrap();
        t.write('b').unwrap();
        t.write('\n').unwrap();
        t.write('c').unwrap();
        t.write('\n').unwrap();
    });

    test_textedit((2, 3), "c_|d_|e* *", |t| {
        t.write('a').unwrap();
        t.write('\n').unwrap();
        t.write('b').unwrap();
        t.write('\n').unwrap();
        t.write('c').unwrap();
        t.write('\n').unwrap();
        t.write('d').unwrap();
        t.write('\n').unwrap();
        t.write('e').unwrap();
    });
}

#[test]
fn test_multi_line_long() {
    test_textedit((2, 3), "__|__|e* *", |t| {
        t.write('a').unwrap();
        t.write('\n').unwrap();
        t.write('b').unwrap();
        t.write('\n').unwrap();
        t.write('c').unwrap();
        t.write('d').unwrap();
        t.write('e').unwrap();
    });

    test_textedit((2, 3), "b_|__|d* *", |t| {
        t.write('a').unwrap();
        t.write('b').unwrap();
        t.write('\n').unwrap();
        t.write('o').unwrap();
        t.write('\n').unwrap();
        t.write('c').unwrap();
        t.write('d').unwrap();
    });

    test_textedit((2, 3), "ab|o_|c*d*", |t| {
        t.write('a').unwrap();
        t.write('b').unwrap();
        t.write('\n').unwrap();
        t.write('o').unwrap();
        t.write('\n').unwrap();
        t.write('c').unwrap();
        t.write('d').unwrap();
        t.move_cursor_left().unwrap();
    });

    test_textedit((2, 3), "ab|o_|*c*d", |t| {
        t.write('a').unwrap();
        t.write('b').unwrap();
        t.write('\n').unwrap();
        t.write('o').unwrap();
        t.write('\n').unwrap();
        t.write('c').unwrap();
        t.write('d').unwrap();
        t.write('e').unwrap();
        t.move_cursor_to(TextTarget::backward(TextElement::LineSeparator))
            .unwrap();
    });
}

#[test]
fn test_multi_line_move() {
    test_textedit((2, 3), "ab|*o*_|cd", |t| {
        t.write('a').unwrap();
        t.write('b').unwrap();
        t.write('\n').unwrap();
        t.write('o').unwrap();
        t.write('\n').unwrap();
        t.write('c').unwrap();
        t.write('d').unwrap();
        t.write('e').unwrap();
        t.move_cursor_to(TextTarget::backward(TextElement::LineSeparator))
            .unwrap();
        t.move_cursor_up().unwrap();
    });

    test_textedit((2, 3), "ab|o* *|cd", |t| {
        t.write('a').unwrap();
        t.write('b').unwrap();
        t.write('\n').unwrap();
        t.write('o').unwrap();
        t.write('\n').unwrap();
        t.write('c').unwrap();
        t.write('d').unwrap();
        t.write('e').unwrap();
        t.move_cursor_up().unwrap();
        t.move_cursor_to(TextTarget::backward(TextElement::LineSeparator))
            .unwrap();
        assert!(t.move_cursor_left().is_err());
        t.move_cursor_to(TextTarget::forward(TextElement::LineSeparator))
            .unwrap();
        assert!(t.move_cursor_right().is_err());
    });
}

#[test]
fn test_move_big_word_begin_forward() {
    test_textedit((6, 1), "abc *d*e", |t| {
        t.set("abc de");
        t.go_to_beginning_of_line().unwrap();
        t.move_cursor_right().unwrap();
        t.move_cursor_to(TextTarget::forward(TextElement::WORDBegin))
            .unwrap();
    });

    test_textedit((7, 1), "abc de* *", |t| {
        t.set("abc de");
        t.go_to_beginning_of_line().unwrap();
        t.move_cursor_right().unwrap();
        t.move_cursor_to(TextTarget::forward(TextElement::WORDBegin).nth(2))
            .unwrap();
    });

    test_textedit((7, 1), "abc de* *", |t| {
        t.set("abc de");
        t.go_to_beginning_of_line().unwrap();
        t.move_cursor_right().unwrap();
        t.move_cursor_to(TextTarget::forward(TextElement::WORDBegin).nth(3))
            .unwrap();
    });

    test_textedit((8, 1), "abc de* *_", |t| {
        t.set("abc de");
        assert!(t
            .move_cursor_to(TextTarget::forward(TextElement::WORDBegin))
            .is_err());
    });
}

#[test]
fn test_move_word_begin_forward() {
    test_textedit((6, 1), "a_c *d*e", |t| {
        t.set("a_c de");
        t.go_to_beginning_of_line().unwrap();
        t.move_cursor_right().unwrap();
        t.move_cursor_to(TextTarget::forward(TextElement::WordBegin))
            .unwrap();
    });

    test_textedit((6, 1), "abc *+*e", |t| {
        t.set("abc +e");
        t.go_to_beginning_of_line().unwrap();
        t.move_cursor_right().unwrap();
        t.move_cursor_to(TextTarget::forward(TextElement::WordBegin))
            .unwrap();
    });

    test_textedit((6, 1), "ab*+* +e", |t| {
        t.set("ab+ +e");
        t.go_to_beginning_of_line().unwrap();
        t.move_cursor_right().unwrap();
        t.move_cursor_to(TextTarget::forward(TextElement::WordBegin))
            .unwrap();
    });

    test_textedit((6, 1), "+*b*+ +e", |t| {
        t.set("+b+ +e");
        t.go_to_beginning_of_line().unwrap();
        t.move_cursor_to(TextTarget::forward(TextElement::WordBegin))
            .unwrap();
    });

    test_textedit((6, 1), "+-+ *+*e", |t| {
        t.set("+-+ +e");
        t.go_to_beginning_of_line().unwrap();
        t.move_cursor_to(TextTarget::forward(TextElement::WordBegin))
            .unwrap();
    });
}

#[test]
fn test_move_big_word_begin_backward() {
    test_textedit((6, 1), "abc *d*e", |t| {
        t.set("abc de");
        t.move_cursor_to(TextTarget::backward(TextElement::WORDBegin))
            .unwrap();
    });
    test_textedit((6, 1), "*a*bc de", |t| {
        t.set("abc de");
        t.move_cursor_to(TextTarget::backward(TextElement::WORDBegin).nth(2))
            .unwrap();
    });
    test_textedit((6, 1), "*a*bc de", |t| {
        t.set("abc de");
        t.move_cursor_to(TextTarget::backward(TextElement::WORDBegin).nth(3))
            .unwrap();
    });
    test_textedit((6, 1), "*a*bc de", |t| {
        t.set("abc de");
        t.go_to_beginning_of_line().unwrap();
        assert!(t
            .move_cursor_to(TextTarget::backward(TextElement::WORDBegin))
            .is_err());
    });
}

#[test]
fn test_move_word_begin_backward() {
    test_textedit((6, 1), "abc *d*_", |t| {
        t.set("abc d_");
        t.move_cursor_to(TextTarget::backward(TextElement::WordBegin))
            .unwrap();
    });
    test_textedit((6, 1), "*-*+- de", |t| {
        t.set("-+- de");
        t.move_cursor_to(TextTarget::backward(TextElement::WordBegin).nth(2))
            .unwrap();
    });
    test_textedit((6, 1), "a*+*- de", |t| {
        t.set("a+- de");
        t.move_cursor_to(TextTarget::backward(TextElement::WordBegin).nth(2))
            .unwrap();
    });
}

#[test]
fn test_move_big_word_end_forward() {
    test_textedit((6, 1), "ab*c* de", |t| {
        t.set("abc de");
        t.go_to_beginning_of_line().unwrap();
        t.move_cursor_to(TextTarget::forward(TextElement::WORDEnd))
            .unwrap();
    });

    test_textedit((6, 1), "abc d*e*", |t| {
        t.set("abc de");
        t.go_to_beginning_of_line().unwrap();
        t.move_cursor_right().unwrap();
        t.move_cursor_right().unwrap();
        t.move_cursor_to(TextTarget::forward(TextElement::WORDEnd))
            .unwrap();
    });

    test_textedit((7, 1), "abc d*e* ", |t| {
        t.set("abc de ");
        t.go_to_beginning_of_line().unwrap();
        t.move_cursor_to(TextTarget::forward(TextElement::WORDEnd).nth(2))
            .unwrap();
    });

    test_textedit((8, 1), "abc de* *_", |t| {
        t.set("abc de ");
        t.go_to_beginning_of_line().unwrap();
        t.move_cursor_to(TextTarget::forward(TextElement::WORDEnd).nth(3))
            .unwrap();
    });
}

#[test]
fn test_move_word_end_forward() {
    test_textedit((6, 1), "ab*c* de", |t| {
        t.set("abc de");
        t.go_to_beginning_of_line().unwrap();
        t.move_cursor_to(TextTarget::forward(TextElement::WordEnd))
            .unwrap();
    });

    test_textedit((6, 1), "a*b*- de", |t| {
        t.set("ab- de");
        t.go_to_beginning_of_line().unwrap();
        t.move_cursor_to(TextTarget::forward(TextElement::WordEnd))
            .unwrap();
    });

    test_textedit((6, 1), "-*b*- de", |t| {
        t.set("-b- de");
        t.go_to_beginning_of_line().unwrap();
        t.move_cursor_to(TextTarget::forward(TextElement::WordEnd))
            .unwrap();
    });

    test_textedit((6, 1), "-+*-* de", |t| {
        t.set("-+- de");
        t.go_to_beginning_of_line().unwrap();
        t.move_cursor_to(TextTarget::forward(TextElement::WordEnd))
            .unwrap();
    });

    test_textedit((6, 1), "-+- d*e*", |t| {
        t.set("-+- de");
        t.go_to_beginning_of_line().unwrap();
        t.move_cursor_to(TextTarget::forward(TextElement::WordEnd).nth(2))
            .unwrap();
    });
}

#[test]
fn test_move_big_word_end_backward() {
    test_textedit((6, 1), "ab*c* de", |t| {
        t.set("abc de");
        t.move_cursor_left().unwrap();
        t.move_cursor_to(TextTarget::backward(TextElement::WORDEnd).nth(1))
            .unwrap();
    });

    test_textedit((6, 1), "*a*bc de", |t| {
        t.set("abc de");
        t.move_cursor_left().unwrap();
        t.move_cursor_to(TextTarget::backward(TextElement::WORDEnd).nth(2))
            .unwrap();
    });
}

#[test]
fn test_move_word_end_backward() {
    test_textedit((6, 1), "ab*c* _e", |t| {
        t.set("abc _e");
        t.move_cursor_left().unwrap();
        t.move_cursor_to(TextTarget::backward(TextElement::WordEnd).nth(1))
            .unwrap();
    });

    test_textedit((6, 1), "*a*bc _e", |t| {
        t.set("abc _e");
        t.move_cursor_left().unwrap();
        t.move_cursor_to(TextTarget::backward(TextElement::WordEnd).nth(2))
            .unwrap();
    });

    test_textedit((6, 1), "a*-*c _e", |t| {
        t.set("a-c _e");
        t.move_cursor_left().unwrap();
        t.move_cursor_to(TextTarget::backward(TextElement::WordEnd).nth(2))
            .unwrap();
    });

    test_textedit((6, 1), "*a*-+ _e", |t| {
        t.set("a-+ _e");
        t.move_cursor_left().unwrap();
        t.move_cursor_to(TextTarget::backward(TextElement::WordEnd).nth(2))
            .unwrap();
    });
}

#[test]
fn test_move_line_sep_forward() {
    test_textedit((3, 2), "ab* *|c__", |t| {
        t.set("ab\nc");
        t.move_cursor_up().unwrap();
        t.go_to_beginning_of_line().unwrap();
        t.move_cursor_to(TextTarget::forward(TextElement::LineSeparator))
            .unwrap();
        assert!(t
            .move_cursor_to(TextTarget::forward(TextElement::LineSeparator))
            .is_err());
    });
}

#[test]
fn test_move_line_sep_backward() {
    test_textedit((3, 2), "ab_|*c*__", |t| {
        t.set("ab\nc");
        t.move_cursor_to(TextTarget::backward(TextElement::LineSeparator))
            .unwrap();
    });
}

#[test]
fn test_move_sentence_forward() {
    test_textedit((13, 1), "abc. *d*ef. ghi", |t| {
        t.set("abc. def. ghi");
        t.go_to_beginning_of_line().unwrap();
        t.move_cursor_to(TextTarget::forward(TextElement::Sentence))
            .unwrap();
    });

    test_textedit((13, 1), "abc. def. *g*hi", |t| {
        t.set("abc. def. ghi");
        t.go_to_beginning_of_line().unwrap();
        t.move_cursor_to(TextTarget::forward(TextElement::Sentence).nth(2))
            .unwrap();
    });

    test_textedit((14, 1), "abc. def. ghi* *", |t| {
        t.set("abc. def. ghi");
        t.go_to_beginning_of_line().unwrap();
        t.move_cursor_to(TextTarget::forward(TextElement::Sentence).nth(3))
            .unwrap();
    });
}

#[test]
fn test_move_sentence_backward() {
    test_textedit((13, 1), "abc. def. *g*hi", |t| {
        t.set("abc. def. ghi");
        t.move_cursor_to(TextTarget::backward(TextElement::Sentence))
            .unwrap();
    });
    test_textedit((13, 1), "abc. *d*ef. ghi", |t| {
        t.set("abc. def. ghi");
        t.move_cursor_to(TextTarget::backward(TextElement::Sentence).nth(2))
            .unwrap();
    });
    test_textedit((13, 1), "*a*bc. def. ghi", |t| {
        t.set("abc. def. ghi");
        t.move_cursor_to(TextTarget::backward(TextElement::Sentence).nth(3))
            .unwrap();
        assert!(t
            .move_cursor_to(TextTarget::backward(TextElement::Sentence).nth(3))
            .is_err());
    });
}

#[test]
fn textedit_cursor_byte_pos_in_line() {
    let mut t = TextEdit::new();
    t.set("ab\nlöl");
    assert_eq!(t.cursor_byte_pos_in_line(), 4);
    t.go_to_beginning_of_line().unwrap();
    assert_eq!(t.cursor_byte_pos_in_line(), 0);
    assert!(t.go_to_beginning_of_line().is_err());
}

#[test]
fn textedit_insert_keeps_cursor_and_clear() {
    let mut t = TextEdit::new();
    assert!(t.clear().is_err());
    t.insert("xy");
    assert_eq!(get(&t, ALL), "xy");
    assert_eq!(get(&t, from(TextTarget::cursor())), "xy");
    assert!(t.clear().is_ok());
    assert_eq!(get(&t, ALL), "");
    assert!(t.delete_forwards().is_err());
    assert!(t.delete_backwards().is_err());
}

#[test]
fn textedit_try_get_and_try_delete_refuse_reversed_ranges() {
    let mut t = TextEdit::new();
    t.set("abc");
    let reversed = (
        TextBound::Included(TextTarget::cursor()),
        TextBound::Excluded(TextTarget::backward(TextElement::GraphemeCluster)),
    );
    assert!(t.try_get(reversed.0, reversed.1).is_none());
    assert!(!t.try_delete(reversed.0, reversed.1));
    assert_eq!(get(&t, ALL), "abc");
    assert!(t.try_delete(
        TextBound::Included(TextTarget::backward(TextElement::GraphemeCluster)),
        TextBound::Unbounded
    ));
    assert_eq!(get(&t, ALL), "ab");
}

#[test]
fn textedit_space_demand() {
    let mut t = TextEdit::new();
    t.set("ab\n沐沐x\n");
    let d = t.as_widget().space_demand();
    assert_eq!(d.width.min.raw_value(), 6);
    assert_eq!(d.width.max, None);
    assert_eq!(d.height.min.raw_value(), 3);
    assert_eq!(d.height.max.map(|h| h.raw_value()), Some(3));
}

#[test]
fn textedit_delete_backwards_undoes_write() {
    let mut t = TextEdit::new();
    t.set("ab");
    t.move_cursor_left().unwrap();
    t.write('x').unwrap();
    assert_eq!(get(&t, ALL), "axb");
    t.delete_backwards().unwrap();
    assert_eq!(get(&t, ALL), "ab");
    assert_eq!(get(&t, from(TextTarget::cursor())), "b");
}

#[test]
fn textedit_get_all_after_set() {
    let mut t = TextEdit::new();
    t.set("x\ny z");
    t.move_cursor_to(TextTarget::backward(TextElement::WordBegin))
        .unwrap();
    assert_eq!(get(&t, ALL), "x\ny z");
}
