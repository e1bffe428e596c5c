use frost::config::centered_position;
use frost::objects::overlay_node_index;
use frost::field::{
    grown_buffer_size, light_field_buffer_size, occluder_field_buffer_size, LIGHT_FIELD_BUFFER_MIN,
    LIGHT_FIELD_HEADER, LIGHT_RECORD, OCCLUDER_FIELD_BUFFER_MIN, OCCLUDER_FIELD_HEADER,
    OCCLUDER_RECORD,
};
use frost::{check_font, Config, Node, NodePath, Repeat, TextError};

#[test]
fn field_buffer_sizes_floor_at_the_wgsl_minimum_binding_size() {
    assert_eq!(light_field_buffer_size(0), LIGHT_FIELD_BUFFER_MIN as u64);
    assert_eq!(
        light_field_buffer_size(1),
        (LIGHT_FIELD_HEADER + LIGHT_RECORD) as u64
    );
    assert_eq!(
        light_field_buffer_size(3),
        (LIGHT_FIELD_HEADER + 3 * LIGHT_RECORD) as u64
    );
    assert_eq!(
        occluder_field_buffer_size(0),
        OCCLUDER_FIELD_BUFFER_MIN as u64
    );
    assert_eq!(
        occluder_field_buffer_size(1),
        (OCCLUDER_FIELD_HEADER + OCCLUDER_RECORD) as u64
    );
}

#[test]
fn field_buffer_sizes_have_exact_byte_counts() {
    assert_eq!(light_field_buffer_size(0), 48);
    assert_eq!(light_field_buffer_size(2), 32 + 96);
    assert_eq!(occluder_field_buffer_size(0), 32);
    assert_eq!(occluder_field_buffer_size(4), 16 + 192);
    assert_eq!(light_field_buffer_size(u32::MAX), 32 + 48 * u32::MAX as u64);
}

#[test]
fn config_defaults_to_vsync_on() {
    assert!(Config::default().vsync);
}

#[test]
fn config_defaults_to_the_platform_window_size() {
    assert_eq!(Config::default().window_size, None);
}

#[test]
fn a_window_is_centered_on_its_monitor() {
    assert_eq!(centered_position([1920, 1080], [800, 600]), [560, 240]);
    // An odd leftover puts the extra pixel on the right/bottom.
    assert_eq!(centered_position([1001, 601], [800, 600]), [100, 0]);
}

#[test]
fn a_window_larger_than_its_monitor_is_clamped_to_the_top_left() {
    assert_eq!(centered_position([640, 480], [800, 300]), [0, 90]);
    assert_eq!(centered_position([0, 0], [u32::MAX, u32::MAX]), [0, 0]);
    assert_eq!(centered_position([u32::MAX, u32::MAX], [0, 0]), [i32::MAX, i32::MAX]);
}

#[test]
fn garbage_bytes_are_not_a_font() {
    match check_font(b"definitely not a font") {
        Err(TextError::InvalidFont) => {}
        other => panic!("expected an invalid font, got {other:?}"),
    }
    assert!(check_font(&[]).is_err());
}

#[test]
fn a_truetype_header_is_accepted_by_the_font_check() {
    // The check is the parser's up-front one: the sfnt version tag of a
    // TrueType font is what it looks for.
    assert!(check_font(&[0, 1, 0, 0]).is_ok());
    assert!(check_font(b"OTTO").is_ok());
}

#[test]
fn text_errors_describe_themselves() {
    assert_eq!(
        TextError::InvalidFont.message(),
        "the font file is not a TrueType/OpenType font"
    );
    let io = TextError::Io(std::io::Error::new(std::io::ErrorKind::NotFound, "gone"));
    assert_eq!(io.message(), "failed to read the font file: gone");
}

#[test]
fn node_paths_name_a_group_and_a_child_chain() {
    let path = NodePath { group: Some(2), children: vec![0, 3] };
    let copy = path.clone();
    assert_eq!(copy.group, Some(2));
    assert_eq!(copy.children, vec![0, 3]);
}

#[test]
fn repeat_modes_are_distinct() {
    assert_ne!(Repeat::Once, Repeat::Loop);
    assert_ne!(Repeat::Loop, Repeat::PingPong);
    assert_eq!(Repeat::PingPong, Repeat::PingPong);
}

/// A leaf that records that it was processed.
#[derive(Debug)]
struct Visited {
    done: bool,
}

impl Node for Visited {
    fn process(&mut self) {
        self.done = true;
    }
    fn visit(&mut self) {
        self.process();
    }
}

/// A custom test parent, in the shape of the trait's docs: it owns its
/// child and visits the child before processing itself.
#[derive(Debug)]
struct VisitParent {
    child: Box<Visited>,
    /// The child's state as observed when this node was processed.
    saw_done: bool,
}

impl Node for VisitParent {
    fn process(&mut self) {
        self.saw_done = self.child.done;
    }
    fn visit(&mut self) {
        self.child.visit();
        self.process();
    }
}

#[test]
fn node_visit_runs_children_before_their_parent() {
    let mut parent = VisitParent {
        child: Box::new(Visited { done: false }),
        saw_done: false,
    };
    parent.visit();
    assert!(parent.child.done);
    assert!(parent.saw_done);
}

/// A node that relies on the default, no-op `process`.
struct Inert {
    visits: u32,
}

impl Node for Inert {
    fn visit(&mut self) {
        self.visits += 1;
        self.process();
    }
}

#[test]
fn the_default_process_does_nothing() {
    let mut node = Inert { visits: 0 };
    node.visit();
    node.process();
    assert_eq!(node.visits, 1);
}

#[test]
fn field_buffers_only_grow_and_end_at_the_peak() {
    assert_eq!(grown_buffer_size(48, 96), Some(96));
    assert_eq!(grown_buffer_size(96, 96), None);
    assert_eq!(grown_buffer_size(96, 48), None);
    let mut size: u64 = light_field_buffer_size(0);
    for count in [2u32, 5, 1, 0, 3] {
        if let Some(grown) = grown_buffer_size(size, light_field_buffer_size(count)) {
            size = grown;
        }
    }
    assert_eq!(size, light_field_buffer_size(5));
}

#[test]
fn the_font_check_reads_the_header_tags_and_the_first_collection_entry() {
    assert!(check_font(b"true").is_ok());
    assert!(check_font(&[0, 1, 0]).is_err());
    assert!(check_font(&[0, 1, 0, 1]).is_err());
    // A collection counting one font whose table directory is at byte 16.
    let mut ttc = b"ttcf".to_vec();
    ttc.extend_from_slice(&[0, 1, 0, 0]);
    ttc.extend_from_slice(&[0, 0, 0, 1]);
    ttc.extend_from_slice(&[0, 0, 0, 16]);
    ttc.extend_from_slice(&[0, 1, 0, 0]);
    assert!(check_font(&ttc).is_ok());
    // The same collection counting no font.
    let mut empty = ttc.clone();
    empty[11] = 0;
    assert!(check_font(&empty).is_err());
    // The first offset points past the end.
    let mut past = ttc.clone();
    past[15] = 200;
    assert!(check_font(&past).is_err());
    // The first offset points at something that is not a font.
    let mut wrong = ttc.clone();
    wrong[16] = 9;
    assert!(check_font(&wrong).is_err());
    // A collection header cut short before its first offset.
    assert!(check_font(&ttc[..14]).is_err());
}

#[test]
fn the_overlay_reuses_its_node_while_it_exists() {
    assert_eq!(overlay_node_index(None, 3), (3, true));
    assert_eq!(overlay_node_index(Some(1), 3), (1, false));
    assert_eq!(overlay_node_index(Some(3), 3), (3, true));
    assert_eq!(overlay_node_index(Some(9), 0), (0, true));
}
