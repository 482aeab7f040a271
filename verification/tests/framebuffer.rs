use fbconsole::font::Font8x8;
use fbconsole::framebuffer::{FBInitResult, FrameBuffer24, Pixel24, Stage, ALLOC_WORDS, INIT_WORDS};

const SUCCESS: u32 = 0x8000_0000;
const ERROR: u32 = 0x8000_0001;
const BLACK: Pixel24 = Pixel24 { r: 0, g: 0, b: 0 };
const A_ROWS: [u8; 8] = [0x18, 0x3C, 0x66, 0x66, 0x7E, 0x66, 0x66, 0x00];

/// A glyph table for the tests: a drawn `A`, an empty space, and for every
/// other character rows that differ from character to character.
fn plane_font_rows() -> Vec<u8> {
    let mut rows = Vec::new();
    for ch in 0..128u32 {
        for y in 0..8u32 {
            let row = if ch == 65 {
                A_ROWS[y as usize]
            } else if ch == 32 {
                0
            } else {
                (ch * 37 + y * 11 + 1) as u8
            };
            rows.push(row);
        }
    }
    rows
}

fn plane_font() -> Font8x8 {
    Font8x8::new(plane_font_rows()).unwrap()
}

/// A handle that was negotiated with a co-processor that grants `size` bytes
/// at the bus address 0xC010_0000.
fn plane(width: u32, height: u32, size: u32) -> FrameBuffer24 {
    let mut fb = FrameBuffer24::new(width, height, plane_font());
    let mut reply = fb.init_request();
    reply[1] = SUCCESS;
    assert_eq!(fb.init(&reply), FBInitResult::Success);
    let mut reply = fb.allocate_request();
    reply[1] = SUCCESS;
    reply[5] = 0xC010_0000;
    reply[6] = size;
    assert_eq!(fb.allocate(&reply), FBInitResult::Success);
    assert!(fb.is_valid());
    fb
}

fn at(buf: &[u8], width: u32, x: u32, y: u32) -> Pixel24 {
    let off = ((y * width + x) * 3) as usize;
    Pixel24 { r: buf[off], g: buf[off + 1], b: buf[off + 2] }
}

#[test]
fn font_needs_1024_rows() {
    assert!(Font8x8::new(vec![0u8; 1024]).is_some());
    assert!(Font8x8::new(vec![0u8; 1023]).is_none());
    assert!(Font8x8::new(vec![0u8; 1025]).is_none());
    assert!(Font8x8::new(Vec::new()).is_none());
    assert!(Font8x8 { rows: vec![0u8; 1024] }.is_valid());
    assert!(!Font8x8 { rows: vec![0u8; 8] }.is_valid());
}

#[test]
fn font_bits_count_from_the_left() {
    let font = plane_font();
    assert!(!font.lit(65, 0, 0));
    assert!(font.lit(65, 3, 0));
    assert!(font.lit(65, 4, 0));
    assert!(!font.lit(65, 5, 0));
    assert!(font.lit(65, 1, 4));
    assert!(!font.lit(65, 7, 4));
    assert!(!font.lit(65, 3, 7));
    let font = Font8x8::new(vec![0x80u8; 1024]).unwrap();
    assert!(font.lit(0, 0, 0));
    assert!(!font.lit(0, 1, 0));
    let font = Font8x8::new(vec![0x01u8; 1024]).unwrap();
    assert!(font.lit(127, 7, 7));
    assert!(!font.lit(127, 6, 7));
}

#[test]
fn new_handle_has_nothing_negotiated() {
    let fb = FrameBuffer24::new(800, 600, plane_font());
    assert_eq!((fb.width, fb.height, fb.bpp), (800, 600, 24));
    assert_eq!((fb.pitch, fb.addr, fb.size), (0, 0, 0));
    assert_eq!((fb.chars_width, fb.chars_height, fb.x, fb.y), (0, 0, 0, 0));
    assert!(fb.buf.is_empty());
    assert_eq!(fb.stage, Stage::Configure);
    assert!(fb.is_valid());
}

#[test]
fn requests_have_the_protocol_layout() {
    let fb = FrameBuffer24::new(800, 600, plane_font());
    let words = fb.init_request();
    assert_eq!(words.len(), INIT_WORDS);
    assert_eq!(
        words,
        vec![
            80, 0, 0x0004_8003, 8, 0, 800, 600, 0x0004_8004, 8, 0, 800, 600, 0x0004_8005, 4, 0,
            24, 0, 0, 0, 0
        ]
    );
    assert_eq!(words[0] % 16, 0);
    let words = fb.allocate_request();
    assert_eq!(words.len(), ALLOC_WORDS);
    assert_eq!(words, vec![32, 0, 0x0004_0001, 8, 0, 16, 0, 0]);
}

#[test]
fn negotiate_800_600_24() {
    let mut fb = FrameBuffer24::new(800, 600, plane_font());
    let mut reply = fb.request().unwrap();
    assert_eq!(reply.len(), 20);
    reply[1] = SUCCESS;
    assert_eq!(fb.respond(&reply), FBInitResult::Success);
    assert_eq!(fb.stage, Stage::Allocate);
    assert_eq!(fb.pitch, 2400);
    assert_eq!(fb.chars_width, 100);
    assert_eq!(fb.chars_height, 75);
    assert_eq!((fb.x, fb.y), (0, 0));
    let mut reply = fb.request().unwrap();
    assert_eq!(reply.len(), 8);
    reply[1] = SUCCESS;
    reply[5] = 0xC010_0000;
    reply[6] = 1_440_000;
    assert_eq!(fb.respond(&reply), FBInitResult::Success);
    assert_eq!(fb.stage, Stage::Ready);
    assert!(fb.request().is_none());
    assert_eq!(fb.addr, 0xC010_0000);
    assert_eq!(fb.size, 1_440_000);
    assert_eq!(fb.buf.len(), 1_440_000);
    assert!(fb.buf.iter().all(|b| *b == 0));
    assert_eq!((fb.width, fb.height, fb.bpp, fb.pitch), (800, 600, 24, 2400));
    assert_eq!(fb.pitch, fb.width * (fb.bpp / 8));
    assert!(fb.size >= fb.pitch * fb.height);
    assert!(fb.is_valid());
    assert!(fb.is_cursor_ok());
}

#[test]
fn configure_left_unanswered_ends_the_negotiation() {
    let mut fb = FrameBuffer24::new(800, 600, plane_font());
    let reply = fb.init_request();
    assert_eq!(fb.init(&reply), FBInitResult::RequestNotProcessed);
    assert_eq!(fb.stage, Stage::Failed);
    assert!(fb.request().is_none());
    assert_eq!((fb.pitch, fb.chars_width, fb.chars_height), (0, 0, 0));
}

#[test]
fn configure_error_ends_the_negotiation() {
    for marker in [ERROR, 1, 0x7FFF_FFFF, 0x8000_0002, 0xFFFF_FFFF] {
        let mut fb = FrameBuffer24::new(800, 600, plane_font());
        let mut reply = fb.init_request();
        reply[1] = marker;
        assert_eq!(fb.init(&reply), FBInitResult::ResponseError);
        assert_eq!(fb.stage, Stage::Failed);
        assert!(fb.request().is_none());
    }
}

#[test]
fn allocate_left_unanswered_ends_the_negotiation() {
    let mut fb = FrameBuffer24::new(800, 600, plane_font());
    let mut reply = fb.init_request();
    reply[1] = SUCCESS;
    assert_eq!(fb.init(&reply), FBInitResult::Success);
    let mut reply = fb.allocate_request();
    reply[5] = 0xC010_0000;
    reply[6] = 1_440_000;
    assert_eq!(fb.allocate(&reply), FBInitResult::RequestNotProcessed);
    assert_eq!(fb.stage, Stage::Failed);
    assert_eq!((fb.addr, fb.size), (0, 0));
    assert!(fb.buf.is_empty());
    assert_eq!(fb.pitch, 2400);
}

#[test]
fn allocate_error_ends_the_negotiation() {
    let mut fb = FrameBuffer24::new(800, 600, plane_font());
    let mut reply = fb.request().unwrap();
    reply[1] = SUCCESS;
    assert_eq!(fb.respond(&reply), FBInitResult::Success);
    let mut reply = fb.request().unwrap();
    reply[1] = ERROR;
    reply[5] = 0xC010_0000;
    reply[6] = 1_440_000;
    assert_eq!(fb.respond(&reply), FBInitResult::ResponseError);
    assert_eq!(fb.stage, Stage::Failed);
    assert!(fb.request().is_none());
    assert!(fb.buf.is_empty());
}

#[test]
fn broken_handle_is_told() {
    let mut fb = plane(32, 24, 2304);
    assert!(fb.is_valid());
    fb.pitch = 100;
    assert!(!fb.is_valid());
    fb.pitch = 96;
    fb.buf.push(0);
    assert!(!fb.is_valid());
    fb.buf.pop();
    fb.chars_width = 5;
    assert!(!fb.is_valid());
    fb.chars_width = 4;
    assert!(fb.is_valid());
    fb.x = 4;
    assert!(!fb.is_cursor_ok());
    fb.x = 3;
    fb.y = 3;
    assert!(!fb.is_cursor_ok());
    fb.y = 2;
    assert!(fb.is_cursor_ok());
}

#[test]
fn putpixel_stores_three_bytes_at_the_offset() {
    let mut fb = plane(32, 24, 2304);
    let p = Pixel24 { r: 1, g: 2, b: 3 };
    fb.putpixel(3, 2, &p);
    let off = 2 * 96 + 3 * 3;
    for (i, b) in fb.buf.iter().enumerate() {
        let want = if i == off {
            1
        } else if i == off + 1 {
            2
        } else if i == off + 2 {
            3
        } else {
            0
        };
        assert_eq!(*b, want, "byte {}", i);
    }
    assert_eq!(fb.pixel(3, 2), Some(p));
    assert_eq!(fb.pixel(2, 2), Some(BLACK));
    fb.putpixel(31, 23, &p);
    assert_eq!(&fb.buf[2301..2304], &[1, 2, 3]);
    assert_eq!(fb.buf.len(), 2304);
}

#[test]
fn putpixel_outside_the_plane_is_dropped() {
    let mut fb = plane(32, 24, 2304);
    let p = Pixel24 { r: 9, g: 9, b: 9 };
    fb.putpixel(32, 0, &p);
    fb.putpixel(0, 24, &p);
    fb.putpixel(u32::MAX, u32::MAX, &p);
    fb.putpixel(u32::MAX, 0, &p);
    fb.putpixel(0, u32::MAX, &p);
    assert!(fb.buf.iter().all(|b| *b == 0));
    assert_eq!(fb.pixel(32, 0), None);
    assert_eq!(fb.pixel(0, 24), None);
    assert_eq!(fb.pixel(u32::MAX, u32::MAX), None);
}

#[test]
fn putpixel_outside_the_memory_is_dropped() {
    let mut fb = plane(32, 24, 100);
    let p = Pixel24 { r: 7, g: 8, b: 9 };
    fb.putpixel(1, 1, &p);
    fb.putpixel(5, 20, &p);
    assert!(fb.buf.iter().all(|b| *b == 0));
    assert_eq!(fb.pixel(1, 1), None);
    fb.putpixel(0, 1, &p);
    assert_eq!(&fb.buf[96..100], &[7, 8, 9, 0]);
    assert_eq!(fb.pixel(0, 1), Some(p));
    assert_eq!(fb.buf.len(), 100);
}

#[test]
fn putchar_draws_the_glyph_opaquely() {
    let mut fb = plane(32, 24, 2304);
    fb.draw_test_pattern();
    let before = fb.buf.clone();
    let col = Pixel24 { r: 10, g: 20, b: 30 };
    fb.putchar('A', 8, 16, &col);
    for y in 0..24u32 {
        for x in 0..32u32 {
            let want = if (8..16).contains(&x) && (16..24).contains(&y) {
                if A_ROWS[(y - 16) as usize] & (0x80 >> (x - 8)) != 0 {
                    col
                } else {
                    BLACK
                }
            } else {
                at(&before, 32, x, y)
            };
            assert_eq!(fb.pixel(x, y), Some(want), "pixel ({}, {})", x, y);
        }
    }
}

#[test]
fn putchar_clips_at_the_edge() {
    let mut fb = plane(32, 24, 2304);
    let col = Pixel24 { r: 255, g: 255, b: 255 };
    fb.putchar('A', 28, 20, &col);
    for y in 0..24u32 {
        for x in 0..32u32 {
            let want = if x >= 28 && y >= 20 && A_ROWS[(y - 20) as usize] & (0x80 >> (x - 28)) != 0
            {
                col
            } else {
                BLACK
            };
            assert_eq!(fb.pixel(x, y), Some(want), "pixel ({}, {})", x, y);
        }
    }
    let before = fb.buf.clone();
    fb.putchar('A', u32::MAX - 3, u32::MAX - 3, &col);
    fb.putchar('A', 32, 0, &col);
    assert_eq!(fb.buf, before);
}

#[test]
fn putchar_from_0x80_on_draws_nothing() {
    let mut fb = plane(32, 24, 2304);
    fb.draw_test_pattern();
    let before = fb.buf.clone();
    let col = Pixel24 { r: 10, g: 20, b: 30 };
    fb.putchar('\u{80}', 0, 0, &col);
    fb.putchar('\u{FF}', 0, 0, &col);
    fb.putchar('\u{100}', 0, 0, &col);
    fb.putchar('\u{141}', 0, 0, &col);
    fb.putchar('\u{10FFFF}', 0, 0, &col);
    assert_eq!(fb.buf, before);
    fb.putchar('\u{7F}', 0, 0, &col);
    assert_ne!(fb.buf, before);
}

#[test]
fn glyph_drawn_then_drawn_in_black_leaves_the_cell_black() {
    for ch in [0u8, 32, 65, 97, 127] {
        let mut fb = plane(32, 24, 2304);
        fb.draw_test_pattern();
        let before = fb.buf.clone();
        fb.putchar(ch as char, 16, 8, &Pixel24 { r: 200, g: 100, b: 50 });
        fb.putchar(ch as char, 16, 8, &BLACK);
        for y in 0..24u32 {
            for x in 0..32u32 {
                let want = if (16..24).contains(&x) && (8..16).contains(&y) {
                    BLACK
                } else {
                    at(&before, 32, x, y)
                };
                assert_eq!(fb.pixel(x, y), Some(want), "pixel ({}, {})", x, y);
            }
        }
    }
}

#[test]
fn test_pattern_values() {
    let mut fb = plane(320, 8, 320 * 8 * 3);
    fb.draw_test_pattern();
    assert_eq!(fb.pixel(0, 0), Some(BLACK));
    assert_eq!(fb.pixel(3, 5), Some(Pixel24 { r: 8, g: 254, b: 15 }));
    assert_eq!(fb.pixel(300, 7), Some(Pixel24 { r: 51, g: 37, b: 52 }));
    assert_eq!(fb.pixel(255, 1), Some(Pixel24 { r: 0, g: 254, b: 255 }));
    assert_eq!(fb.pixel(256, 7), Some(Pixel24 { r: 7, g: 249, b: 0 }));
}

#[test]
fn scroll_moves_rows_up_and_blackens_the_bottom() {
    let mut fb = plane(32, 24, 2304);
    fb.draw_test_pattern();
    fb.putpixel(0, 0, &Pixel24 { r: 1, g: 1, b: 1 });
    let before = fb.buf.clone();
    fb.scroll_y(8);
    for y in 0..24u32 {
        for x in 0..32u32 {
            let want = if y < 16 { at(&before, 32, x, y + 8) } else { BLACK };
            assert_eq!(fb.pixel(x, y), Some(want), "pixel ({}, {})", x, y);
        }
    }
    assert_eq!((fb.x, fb.y), (0, 0));
    assert_eq!(fb.buf.len(), 2304);
}

#[test]
fn scroll_by_nothing_changes_nothing() {
    let mut fb = plane(32, 24, 2304);
    fb.draw_test_pattern();
    let before = fb.buf.clone();
    fb.scroll_y(0);
    assert_eq!(fb.buf, before);
}

#[test]
fn scroll_by_the_height_or_more_blackens_the_plane() {
    for rows in [24u32, 25, 1000, u32::MAX] {
        let mut fb = plane(32, 24, 2304 + 5);
        fb.draw_test_pattern();
        for b in fb.buf[2304..].iter_mut() {
            *b = 0xEE;
        }
        fb.scroll_y(rows);
        assert!(fb.buf[..2304].iter().all(|b| *b == 0));
        assert!(fb.buf[2304..].iter().all(|b| *b == 0xEE));
    }
}

#[test]
fn scroll_by_23_rows_keeps_one_row() {
    let mut fb = plane(32, 24, 2304);
    fb.draw_test_pattern();
    let before = fb.buf.clone();
    fb.scroll_y(23);
    for x in 0..32u32 {
        assert_eq!(fb.pixel(x, 0), Some(at(&before, 32, x, 23)));
        for y in 1..24u32 {
            assert_eq!(fb.pixel(x, y), Some(BLACK));
        }
    }
}

#[test]
fn scroll_in_a_short_memory_moves_what_is_there() {
    let mut fb = plane(4, 4, 32);
    for k in 0..10u32 {
        fb.putpixel(k % 4, k / 4, &Pixel24 { r: k as u8 + 1, g: 0, b: 0 });
    }
    fb.buf[30] = 0xAA;
    fb.buf[31] = 0xBB;
    fb.scroll_y(1);
    let reds: Vec<u8> = (0..10usize).map(|k| fb.buf[3 * k]).collect();
    assert_eq!(reds, vec![5, 6, 7, 8, 9, 10, 7, 8, 9, 10]);
    assert_eq!(&fb.buf[30..], &[0xAA, 0xBB]);
    assert_eq!(fb.pixel(1, 2), Some(Pixel24 { r: 10, g: 0, b: 0 }));
    assert_eq!(fb.pixel(2, 2), None);
}

#[test]
fn memory_covers_the_plane_from_pitch_times_height_on() {
    assert!(plane(32, 24, 2304).is_covered());
    assert!(plane(32, 24, 4096).is_covered());
    assert!(!plane(32, 24, 2303).is_covered());
    assert!(!plane(32, 24, 0).is_covered());
    let fb = plane(32, 24, 2303);
    assert_eq!(fb.pixel(30, 23), Some(BLACK));
    assert_eq!(fb.pixel(31, 23), None);
}
