use pkger::table::{Alignment, Style, BOLD, ITALIC, REVERSED, UNDERLINE};

#[test]
fn adds_styles() {
    let style = Style::default().add_style(BOLD).add_style(ITALIC);

    assert!(style.is_bold());
    assert!(style.is_italic());
    assert!(!style.is_reversed());
    assert!(!style.is_underline());

    let style = Style::default().add_style(UNDERLINE).add_style(REVERSED);

    assert!(!style.is_bold());
    assert!(!style.is_italic());
    assert!(style.is_reversed());
    assert!(style.is_underline());
}

#[test]
fn styles_from_bits() {
    let style = Style::from_bits(BOLD | REVERSED);
    assert!(style.is_bold());
    assert!(style.is_reversed());
    assert!(!style.is_italic());
    assert_eq!(style.add_style(BOLD), style);
    assert_ne!(Alignment::Left, Alignment::Right);
}

use pkger::table::{Color, IntoCell, IntoTable};

#[test]
fn renders_empty() {
    let table = Vec::<Vec<String>>::new().into_table();

    assert_eq!("".to_string(), table.render());

    let table = vec![Vec::<String>::new(), vec![], vec![], vec![]].into_table();

    assert_eq!("\n\n\n\n".to_string(), table.render());

    let table = vec![vec!["", ""], vec![], vec![], vec![]].into_table();

    assert_eq!(" \n \n \n \n".to_string(), table.render());

    let table = vec![vec!["", ""], vec![], vec![], vec![]]
        .into_table()
        .with_column_separator('|');

    assert_eq!("|\n|\n|\n|\n".to_string(), table.render())
}

#[test]
fn renders_simple() {
    let table = vec![
        vec!["simple", "test", "testcaselong"],
        vec!["loooooonger", "test", "shorter"],
        vec!["shorterrow"],
    ]
    .into_table()
    .with_headers(vec!["first", "second", "third"])
    .with_column_separator('|');

    assert_eq!(
        r#"
   first   |second|   third
  simple   | test |testcaselong
loooooonger| test |  shorter
shorterrow |      |            
"#
        .to_string(),
        format!("\n{}", table.render()),
    )
}

#[test]
fn renders_no_headers() {
    let table = vec![
        vec!["simple", "test", "with", "no", "headers"],
        vec![],
        vec!["or", "a", "separator"],
    ]
    .into_table();

    assert_eq!(
        r#"
simple test   with    no headers
                                
  or    a   separator           
"#
        .to_string(),
        format!("\n{}", table.render()),
    )
}

#[test]
fn alignment() {
    let table = vec![
        vec![
            "left".cell().left(),
            "center".cell(),
            "right".cell().right(),
        ],
        vec!["          ".cell(), " center ".cell(), "          ".cell()],
        vec![
            "right".cell().right(),
            "center".cell(),
            "left".cell().left(),
        ],
    ]
    .into_table()
    .with_column_separator('|');

    assert_eq!(
        r#"
left      | center |     right
          | center |          
     right| center |left
"#,
        format!("\n{}", table.render()),
    )
}

#[test]
fn renders_separators() {
    let table = vec![
        vec!["first", "row"],
        vec!["second"],
        vec![],
        vec!["fourth", "row"],
    ]
    .into_table()
    .with_row_separator('~')
    .with_column_separator('|');

    assert_eq!(
        r#"
~~~~~~~~~~~
first |row
~~~~~~~~~~~
second|   
~~~~~~~~~~~
      |   
~~~~~~~~~~~
fourth|row
~~~~~~~~~~~
"#
        .to_string(),
        format!("\n{}", table.render()),
    )
}

#[test]
fn simple_cell() {
    let cell = "".cell();
    assert_eq!(cell.alignment, Alignment::Center);
    assert_eq!(cell.text, "");
    assert_eq!(cell.color, Color::BrightWhite);
    assert_eq!(cell.style, Style::default());
}

#[test]
fn cell_alignment() {
    let cell = "some text".cell().left();
    assert_eq!(cell.text, "some text");
    assert_eq!(cell.alignment, Alignment::Left);
    let cell = cell.right();
    assert_eq!(cell.alignment, Alignment::Right);
    let cell = cell.center();
    assert_eq!(cell.alignment, Alignment::Center);
}

#[test]
fn cell_style() {
    let cell = "some text".cell();

    assert!(!cell.style.is_bold());
    assert!(!cell.style.is_italic());
    assert!(!cell.style.is_underline());
    assert!(!cell.style.is_reversed());

    let cell = cell
        .color(Color::Blue)
        .bold()
        .italic()
        .reversed()
        .underline();

    assert_eq!(cell.color, Color::Blue);
    assert!(cell.style.is_bold());
    assert!(cell.style.is_italic());
    assert!(cell.style.is_underline());
    assert!(cell.style.is_reversed());
}
