use letschat::conversation::{
    neutral_color, palette_color, ConversationMessage, ConversationMessageManager, EntryLayout,
    Rgb, PALETTE_SIZE,
};

fn rgb(r: u8, g: u8, b: u8) -> Rgb {
    Rgb { r, g, b }
}

#[test]
fn palette_has_twenty_colours_in_this_order() {
    assert_eq!(PALETTE_SIZE, 20);
    let expected = [
        rgb(26, 77, 153),
        rgb(51, 128, 77),
        rgb(153, 77, 26),
        rgb(128, 51, 102),
        rgb(179, 128, 51),
        rgb(51, 153, 128),
        rgb(204, 77, 77),
        rgb(77, 179, 102),
        rgb(102, 102, 179),
        rgb(179, 102, 153),
        rgb(77, 153, 179),
        rgb(153, 179, 77),
        rgb(128, 77, 179),
        rgb(51, 102, 179),
        rgb(179, 153, 77),
        rgb(77, 179, 153),
        rgb(102, 77, 153),
        rgb(153, 102, 77),
        rgb(51, 128, 153),
        rgb(179, 77, 128),
    ];
    for (i, colour) in expected.iter().enumerate() {
        assert_eq!(palette_color(i), *colour);
    }
}

#[test]
fn palette_is_counted_round() {
    assert_eq!(palette_color(20), palette_color(0));
    assert_eq!(palette_color(39), palette_color(19));
    assert_eq!(palette_color(41), rgb(51, 128, 77));
    assert_eq!(palette_color(usize::MAX), palette_color(usize::MAX % 20));
}

#[test]
fn palette_colours_differ_from_each_other() {
    for i in 0..20usize {
        for j in 0..i {
            assert_ne!(palette_color(i), palette_color(j));
        }
    }
}

#[test]
fn neutral_colour_is_black() {
    assert_eq!(neutral_color(), rgb(0, 0, 0));
}

#[test]
fn first_names_get_the_palette_in_order() {
    let mut manager = ConversationMessageManager::new();
    assert_eq!(manager.color_for(&"alice".to_string()), rgb(26, 77, 153));
    assert_eq!(manager.color_for(&"bob".to_string()), rgb(51, 128, 77));
    assert_eq!(manager.color_for(&"carol".to_string()), rgb(153, 77, 26));
}

#[test]
fn a_seen_name_keeps_its_colour() {
    let mut manager = ConversationMessageManager::new();
    let alice = manager.color_for(&"alice".to_string());
    let bob = manager.color_for(&"bob".to_string());
    assert_eq!(manager.color_for(&"alice".to_string()), alice);
    assert_eq!(manager.color_for(&"alice".to_string()), alice);
    let carol = manager.color_for(&"carol".to_string());
    assert_eq!(manager.color_for(&"bob".to_string()), bob);
    assert_eq!(manager.color_for(&"alice".to_string()), alice);
    assert_eq!(manager.color_for(&"carol".to_string()), carol);
    // asking again did not move the cursor
    assert_eq!(manager.color_for(&"dave".to_string()), palette_color(3));
}

#[test]
fn the_twenty_first_new_name_has_the_colour_of_the_first() {
    let mut manager = ConversationMessageManager::new();
    let mut colours: Vec<Rgb> = Vec::new();
    for i in 0..21usize {
        colours.push(manager.color_for(&format!("user{}", i)));
    }
    assert_eq!(colours[20], colours[0]);
    for i in 0..20usize {
        assert_eq!(colours[i], palette_color(i));
    }
    // the earlier names keep theirs
    for i in 0..21usize {
        assert_eq!(manager.color_for(&format!("user{}", i)), colours[i]);
    }
}

#[test]
fn the_wrap_holds_from_any_start() {
    let mut manager = ConversationMessageManager::new();
    for i in 0..7usize {
        manager.color_for(&format!("early{}", i));
    }
    let mut colours: Vec<Rgb> = Vec::new();
    for i in 0..45usize {
        colours.push(manager.color_for(&format!("late{}", i)));
    }
    assert_eq!(colours[0], palette_color(7));
    for i in 0..25usize {
        assert_eq!(colours[i + 20], colours[i]);
    }
}

#[test]
fn names_differ_by_every_character() {
    let mut manager = ConversationMessageManager::new();
    let a = manager.color_for(&"alice".to_string());
    let b = manager.color_for(&"Alice".to_string());
    let c = manager.color_for(&"alice ".to_string());
    let d = manager.color_for(&String::new());
    assert_eq!(a, palette_color(0));
    assert_eq!(b, palette_color(1));
    assert_eq!(c, palette_color(2));
    assert_eq!(d, palette_color(3));
}

#[test]
fn format_conversation_message_colours_by_name() {
    let mut manager = ConversationMessageManager::new();
    let first = manager.format_conversation_message("You".to_string(), "hi".to_string());
    assert_eq!(
        first,
        ConversationMessage {
            name: "You".to_string(),
            color: rgb(26, 77, 153),
            content: "hi".to_string()
        }
    );
    let second = manager.format_conversation_message("bob".to_string(), " yo ".to_string());
    assert_eq!(second.color, rgb(51, 128, 77));
    assert_eq!(second.content, " yo ");
    let third = manager.format_conversation_message("You".to_string(), "again".to_string());
    assert_eq!(third.color, rgb(26, 77, 153));
}

#[test]
fn cm_from_string_splits_sender_and_body() {
    let mut manager = ConversationMessageManager::new();
    let entry = manager.cm_from_string("alice > hello".to_string());
    assert_eq!(entry.name, "alice");
    assert_eq!(entry.content, "hello");
    assert_eq!(entry.color, palette_color(0));
}

#[test]
fn cm_from_string_without_delimiter_is_a_system_line() {
    let mut manager = ConversationMessageManager::new();
    let entry = manager.cm_from_string("\nYou have joined as bob".to_string());
    assert_eq!(entry.name, "");
    assert_eq!(entry.content, "\nYou have joined as bob");
    assert_eq!(entry.color, rgb(0, 0, 0));
    // a system line takes no colour from the palette
    assert_eq!(manager.color_for(&"next".to_string()), palette_color(0));
}

#[test]
fn cm_from_string_trims_sender_and_body() {
    let mut manager = ConversationMessageManager::new();
    let entry = manager.cm_from_string("  al ice \t>\n  hello  there  ".to_string());
    assert_eq!(entry.name, "al ice");
    assert_eq!(entry.content, "hello  there");
}

#[test]
fn cm_from_string_drops_further_delimiters_from_the_body() {
    let mut manager = ConversationMessageManager::new();
    let entry = manager.cm_from_string("a > b > c".to_string());
    assert_eq!(entry.name, "a");
    assert_eq!(entry.content, "b  c");
    let arrows = manager.cm_from_string("a>>>".to_string());
    assert_eq!(arrows.name, "a");
    assert_eq!(arrows.content, "");
}

#[test]
fn cm_from_string_with_nothing_before_the_delimiter() {
    let mut manager = ConversationMessageManager::new();
    let entry = manager.cm_from_string("> hi".to_string());
    assert_eq!(entry.name, "");
    assert_eq!(entry.content, "hi");
    assert_eq!(entry.color, palette_color(0));
}

#[test]
fn cm_from_string_gives_one_sender_one_colour() {
    let mut manager = ConversationMessageManager::new();
    let a1 = manager.cm_from_string("alice > one".to_string());
    let b1 = manager.cm_from_string("bob > two".to_string());
    let a2 = manager.cm_from_string(" alice> three".to_string());
    assert_eq!(a1.color, a2.color);
    assert_ne!(a1.color, b1.color);
}

#[test]
fn cm_from_string_of_the_empty_line() {
    let mut manager = ConversationMessageManager::new();
    let entry = manager.cm_from_string(String::new());
    assert_eq!(entry, ConversationMessage::system(String::new()));
}

#[test]
fn cms_from_vec_builds_in_order() {
    let mut manager = ConversationMessageManager::new();
    let entries = manager.cms_from_vec(vec![
        "alice > one".to_string(),
        "server notice".to_string(),
        "bob > two".to_string(),
        "alice > three".to_string(),
    ]);
    assert_eq!(entries.len(), 4);
    assert_eq!(entries[0].name, "alice");
    assert_eq!(entries[0].color, palette_color(0));
    assert_eq!(entries[1], ConversationMessage::system("server notice".to_string()));
    assert_eq!(entries[2].name, "bob");
    assert_eq!(entries[2].color, palette_color(1));
    assert_eq!(entries[3].content, "three");
    assert_eq!(entries[3].color, palette_color(0));
    assert_eq!(manager.color_for(&"carol".to_string()), palette_color(2));
}

#[test]
fn cms_from_vec_of_nothing() {
    let mut manager = ConversationMessageManager::new();
    assert_eq!(manager.cms_from_vec(Vec::new()), Vec::<ConversationMessage>::new());
    assert_eq!(manager, ConversationMessageManager::new());
}

#[test]
fn system_entry_has_no_name_and_the_neutral_colour() {
    let entry = ConversationMessage::system("hello".to_string());
    assert_eq!(entry.name, "");
    assert_eq!(entry.color, neutral_color());
    assert_eq!(entry.content, "hello");
}

#[test]
fn layout_goes_by_the_name() {
    let mut manager = ConversationMessageManager::new();
    let system = ConversationMessage::system("notice".to_string());
    let own = manager.format_conversation_message("You".to_string(), "hi".to_string());
    let other = manager.format_conversation_message("you".to_string(), "hi".to_string());
    assert_eq!(system.layout(), EntryLayout::SystemLine);
    assert_eq!(own.layout(), EntryLayout::OwnMessage);
    assert_eq!(other.layout(), EntryLayout::OtherMessage);
}
