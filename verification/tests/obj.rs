use brumous::error::BrumousError;
use brumous::obj::blank;
use brumous::obj::line_words;
use brumous::obj::parse_obj_lines;
use brumous::obj::text_lines;
use brumous::obj::ObjData;
use brumous::obj::ObjFault;
use brumous::obj::ObjLine;
use brumous::obj::ObjToken;
use brumous::obj::Vertex;
use brumous::particle::ParticleVertex;

fn bits(x: f32) -> u32 {
    x.to_bits()
}

/// The words of a line, each with the number that it writes.
fn line(text: &str) -> ObjLine {
    ObjLine {
        tokens: text
            .split_whitespace()
            .map(|word| ObjToken {
                text: word.to_string(),
                number: word.parse::<f32>().ok().map(|x| x.to_bits()),
            })
            .collect(),
    }
}

fn lines(text: &str) -> Vec<ObjLine> {
    text.lines().map(line).collect()
}

fn lists() -> ObjData {
    ObjData {
        v: vec![[1, 2, 3], [4, 5, 6], [7, 8, 9]],
        vt: vec![[10, 11], [12, 13]],
        vn: vec![[20, 21, 22]],
        vertices: Vec::new(),
    }
}

fn vertex(position: [u32; 3], tex_coords: [u32; 2], normal: [u32; 3]) -> ParticleVertex {
    ParticleVertex { position, tex_coords, normal }
}

#[test]
fn the_parts_of_a_vertex_come_in_turn() {
    let mut part = Vertex::Position;
    part.next();
    assert_eq!(part, Vertex::TexCoords);
    part.next();
    assert_eq!(part, Vertex::Normal);
    part.next();
    assert_eq!(part, Vertex::Position);
}

#[test]
fn a_word_names_what_stands_before_its_slashes() {
    let data = lists();
    assert_eq!(data.face_vertex("2/1/1/"), Ok(vertex([4, 5, 6], [10, 11], [20, 21, 22])));
    assert_eq!(data.face_vertex("2/1/1"), Ok(vertex([4, 5, 6], [10, 11], [0, 0, 0])));
    assert_eq!(data.face_vertex("3/2"), Ok(vertex([7, 8, 9], [0, 0], [0, 0, 0])));
    assert_eq!(data.face_vertex("3"), Ok(ParticleVertex::default()));
    assert_eq!(data.face_vertex(""), Ok(ParticleVertex::default()));
    assert_eq!(data.face_vertex("//"), Ok(ParticleVertex::default()));
    assert_eq!(data.face_vertex("1//1/"), Ok(vertex([1, 2, 3], [0, 0], [20, 21, 22])));
    assert_eq!(data.face_vertex("/2/"), Ok(vertex([0, 0, 0], [12, 13], [0, 0, 0])));
    assert_eq!(data.face_vertex("+2/"), Ok(vertex([4, 5, 6], [0, 0], [0, 0, 0])));
}

#[test]
fn a_fourth_piece_names_the_position_again() {
    let data = lists();
    assert_eq!(data.face_vertex("1/1/1/3/"), Ok(vertex([7, 8, 9], [10, 11], [20, 21, 22])));
    assert_eq!(data.face_vertex("1/1/1/3/2/x"), Ok(vertex([7, 8, 9], [12, 13], [20, 21, 22])));
}

#[test]
fn a_piece_that_is_no_whole_number_is_a_fault() {
    let data = lists();
    assert_eq!(data.face_vertex("a/1/1"), Err(ObjFault::Int));
    assert_eq!(data.face_vertex("1.0/"), Err(ObjFault::Int));
    assert_eq!(data.face_vertex("1/ /"), Err(ObjFault::Int));
    assert_eq!(data.face_vertex("1/2147483648/"), Err(ObjFault::Int));
    assert_eq!(data.face_vertex("-/"), Err(ObjFault::Int));
    assert_eq!(data.face_vertex("1/x"), Ok(vertex([1, 2, 3], [0, 0], [0, 0, 0])));
}

#[test]
fn a_place_that_a_list_does_not_have_is_a_fault() {
    let data = lists();
    assert_eq!(data.face_vertex("4/"), Err(ObjFault::VertexData));
    assert_eq!(data.face_vertex("0/"), Err(ObjFault::VertexData));
    assert_eq!(data.face_vertex("-1/"), Err(ObjFault::VertexData));
    assert_eq!(data.face_vertex("1/3/"), Err(ObjFault::VertexData));
    assert_eq!(data.face_vertex("1/1/2/"), Err(ObjFault::VertexData));
    assert_eq!(data.face_vertex("2147483647/"), Err(ObjFault::VertexData));
    assert_eq!(ObjData::new().face_vertex("1/"), Err(ObjFault::VertexData));
}

#[test]
fn the_first_fault_of_a_word_is_its_fault() {
    let data = lists();
    assert_eq!(data.face_vertex("9/x/"), Err(ObjFault::VertexData));
    assert_eq!(data.face_vertex("x/9/"), Err(ObjFault::Int));
}

#[test]
fn lines_fill_the_lists() {
    let mut data = ObjData::new();
    assert_eq!(data.read_line(&line("v 1.0 2.5 -3")), Ok(()));
    assert_eq!(data.read_line(&line("vt 0.5 0.25")), Ok(()));
    assert_eq!(data.read_line(&line("vn 0 1 0")), Ok(()));
    assert_eq!(data.read_line(&line("v 4 5 6 7 8")), Ok(()));
    assert_eq!(data.read_line(&line("# a remark")), Ok(()));
    assert_eq!(data.read_line(&line("")), Ok(()));
    assert_eq!(data.read_line(&line("vp 1 2 x")), Ok(()));
    assert_eq!(data.v, vec![[bits(1.0), bits(2.5), bits(-3.0)], [bits(4.0), bits(5.0), bits(6.0)]]);
    assert_eq!(data.vt, vec![[bits(0.5), bits(0.25)]]);
    assert_eq!(data.vn, vec![[bits(0.0), bits(1.0), bits(0.0)]]);
    assert!(data.vertices.is_empty());
    assert_eq!(data.read_line(&line("f 1/1/1/ 2/1/1/ 2//")), Ok(()));
    assert_eq!(
        data.vertices,
        vec![
            vertex(data.v[0], data.vt[0], data.vn[0]),
            vertex(data.v[1], data.vt[0], data.vn[0]),
            vertex(data.v[1], [0, 0], [0, 0, 0]),
        ]
    );
    assert_eq!(data.read_line(&line("f")), Ok(()));
    assert_eq!(data.vertices.len(), 3);
}

#[test]
fn lines_at_fault() {
    let mut data = ObjData::new();
    assert_eq!(data.read_line(&line("v 1 2")), Err(ObjFault::VertexData));
    assert_eq!(data.read_line(&line("v")), Err(ObjFault::VertexData));
    assert_eq!(data.read_line(&line("vt 1")), Err(ObjFault::VertexData));
    assert_eq!(data.read_line(&line("vn 1 2")), Err(ObjFault::VertexData));
    assert_eq!(data.read_line(&line("v 1 2 three")), Err(ObjFault::Float));
    assert_eq!(data.read_line(&line("v 1 2 3 four")), Err(ObjFault::Float));
    assert_eq!(data.read_line(&line("vt x")), Err(ObjFault::Float));
    assert_eq!(data.read_line(&line("vn 1 2 3 4 5 -")), Err(ObjFault::Float));
    assert_eq!(data.read_line(&line("f 1/")), Err(ObjFault::VertexData));
    assert_eq!(data.read_line(&line("f x/")), Err(ObjFault::Int));
}

const SQUARE: &str = "# a square
v 0 0 0
v 1 0 0
v 1 1 0
v 0 1 0
vt 0 0
vt 1 1
vn 0 0 1

f 1/1/1/ 2/1/1/ 3/2/1/
f 1/1/1/ 3/2/1/ 4/2/1/
";

#[test]
fn a_square_is_read() {
    let vertices = parse_obj_lines(&lines(SQUARE), "square.obj").unwrap();
    let corner = |x: f32, y: f32, t: f32| {
        vertex([bits(x), bits(y), bits(0.0)], [bits(t), bits(t)], [bits(0.0), bits(0.0), bits(1.0)])
    };
    assert_eq!(
        vertices,
        vec![
            corner(0.0, 0.0, 0.0),
            corner(1.0, 0.0, 0.0),
            corner(1.0, 1.0, 1.0),
            corner(0.0, 0.0, 0.0),
            corner(1.0, 1.0, 1.0),
            corner(0.0, 1.0, 1.0),
        ]
    );
    assert_eq!(parse_obj_lines(&Vec::new(), "none.obj").unwrap(), Vec::new());
}

#[test]
fn a_fault_is_told_with_its_line() {
    match parse_obj_lines(&lines("v 0 0 0\nv 1 0 zero\nf x/"), "a.obj") {
        Err(BrumousError::ParseFloat(path, line)) => assert_eq!((path.as_str(), line), ("a.obj", 2)),
        _ => panic!("a malformed number is due"),
    }
    match parse_obj_lines(&lines("v 0 0 0\n\nf 1/ 1/ one/"), "b.obj") {
        Err(BrumousError::ParseInt(path, line)) => assert_eq!((path.as_str(), line), ("b.obj", 3)),
        _ => panic!("a malformed whole number is due"),
    }
    match parse_obj_lines(&lines("v 0 0 0\nf 1/ 2/"), "c.obj") {
        Err(BrumousError::InvalidVertexData(path, line)) => {
            assert_eq!((path.as_str(), line), ("c.obj", 2))
        }
        _ => panic!("malformed vertex data is due"),
    }
    match parse_obj_lines(&lines("vt 1"), "d.obj") {
        Err(BrumousError::InvalidVertexData(path, line)) => {
            assert_eq!((path.as_str(), line), ("d.obj", 1))
        }
        _ => panic!("malformed vertex data is due"),
    }
}

#[test]
fn a_face_sees_the_lists_so_far() {
    match parse_obj_lines(&lines("f 1/\nv 0 0 0"), "early.obj") {
        Err(BrumousError::InvalidVertexData(_, line)) => assert_eq!(line, 1),
        _ => panic!("malformed vertex data is due"),
    }
    let vertices = parse_obj_lines(&lines("v 1 1 1\nf 1/\nv 2 2 2\nf 2/ 1/"), "late.obj").unwrap();
    let positions: Vec<f32> = vertices.iter().map(|v| f32::from_bits(v.position[0])).collect();
    assert_eq!(positions, vec![1.0, 2.0, 1.0]);
}

#[test]
fn blanks_are_what_the_standard_library_calls_white_space() {
    for n in 0..=0x10ffffu32 {
        if let Some(c) = char::from_u32(n) {
            assert_eq!(blank(c), c.is_whitespace(), "for the character {:#x}", n);
        }
    }
}

#[test]
fn words_are_parted_by_blanks() {
    let texts = [
        "",
        " ",
        "v",
        "v 1 2 3",
        "  v   1.5\t-2 \r",
        "f 1/2/3/ 4//6/",
        "\u{a0}a\u{3000}b\u{2003}c\u{85}",
        "tr\u{e9}s bien",
        "one",
        " one",
        "one ",
        "a b",
        "a  b",
        "\n\n",
    ];
    for text in texts {
        let expected: Vec<String> = text.split_whitespace().map(|w| w.to_string()).collect();
        assert_eq!(line_words(text), expected, "for {:?}", text);
    }
    assert_eq!(line_words("  v   1.5\t-2 \r"), vec!["v", "1.5", "-2"]);
}

#[test]
fn lines_are_parted_by_line_feeds() {
    let texts = ["", "\n", "a", "a\n", "a\nb", "a\r\nb\r\n", "\n\na\n\n", "v 1 2 3\nf 1/\n# end"];
    for text in texts {
        let expected: Vec<String> = text.split('\n').map(|l| l.to_string()).collect();
        assert_eq!(text_lines(text), expected, "for {:?}", text);
    }
    assert_eq!(text_lines("a\nb\n"), vec!["a", "b", ""]);
    assert_eq!(text_lines(""), vec![""]);
}

#[test]
fn the_lines_of_a_text_hold_the_words_that_the_standard_library_finds() {
    let text = "# a square\r\nv 0 0 0\r\n\r\nvt 1 1\nf 1/1/ \n";
    let ours: Vec<Vec<String>> = text_lines(text).iter().map(|l| line_words(l)).collect();
    let mut theirs: Vec<Vec<String>> =
        text.lines().map(|l| l.split_whitespace().map(|w| w.to_string()).collect()).collect();
    theirs.push(Vec::new());
    assert_eq!(ours, theirs);
}
