use ui::button::ButtonRounded;
use ui::button::ButtonSize;
use ui::button::ButtonStyle;
use ui::calendar::Mode;
use ui::calendar::ViewMode;
use ui::icon::IconName;
use ui::label::TextAlign;
use ui::styled_ext::ElevationIndex;

#[test]
fn view_mode_predicates_tell_the_modes_apart() {
    assert!(ViewMode::Day.is_day());
    assert!(!ViewMode::Day.is_month());
    assert!(!ViewMode::Day.is_year());
    assert!(ViewMode::Month.is_month());
    assert!(!ViewMode::Month.is_day());
    assert!(ViewMode::Year.is_year());
    assert!(!ViewMode::Year.is_month());
}

#[test]
fn defaults_are_single_and_left() {
    assert_eq!(Mode::default(), Mode::Single);
    assert_eq!(TextAlign::default(), TextAlign::Left);
}

#[test]
fn icon_paths_point_into_the_icons_directory() {
    assert_eq!(IconName::Check.path(), "icons/check.svg");
    assert_eq!(IconName::Minus.path(), "icons/minus.svg");
    assert_eq!(IconName::Dash.path(), "icons/dash.svg");
    assert_eq!(IconName::Maximize.path(), "icons/maximize.svg");
    assert_eq!(IconName::Minimize.path(), "icons/minimize.svg");
    assert_eq!(IconName::Close.path(), "icons/close.svg");
    assert_eq!(IconName::ChevronDown.path(), "icons/chevron-down.svg");
}

#[test]
fn configuration_choices_compare_by_variant() {
    assert_ne!(ButtonRounded::Square, ButtonRounded::Large);
    assert_ne!(ButtonSize::Small, ButtonSize::Medium);
    assert_ne!(ButtonStyle::Primary, ButtonStyle::Danger);
    assert_ne!(ElevationIndex::Surface, ElevationIndex::ModalSurface);
}
