use bevy_foliage_tool::dimensions::IntVec2;
use bevy_foliage_tool::edit::{
    apply_tool_edit, BrushType, EditingTool, FoliageBrushEvent, FoliageCommandEvent, ToolEditResult,
};
use bevy_foliage_tool::foliage_density::{FoliageDensityMapU8, FoliageDensityMapsComponent};
use bevy_foliage_tool::foliage_types::FoliageDefinition;

fn scene_maps(layers: usize, width: i32, height: i32) -> FoliageDensityMapsComponent {
    let defs = (0..layers)
        .map(|i| FoliageDefinition { name: format!("l{}", i), mesh_name: None, material_name: None })
        .collect();
    FoliageDensityMapsComponent::new(IntVec2::new(width, height), defs)
}

fn tool(layer: u8, density: u8) -> EditingTool {
    EditingTool::SetFoliageDensity { foliage_index: layer, density }
}

#[test]
fn exact_brush_paints_cells_it_reaches() {
    let mut maps = scene_maps(2, 4, 3);
    let result = apply_tool_edit(&mut maps, tool(1, 9), BrushType::SetExact, IntVec2::new(4, 3), 0, 0, |x, y, _old| {
        if x <= 1 && y <= 1 { Some(9) } else { None }
    });
    assert_eq!(result, ToolEditResult::Painted);
    assert_eq!(maps.layer(1).unwrap().0, vec![vec![9, 9, 0, 0], vec![9, 9, 0, 0], vec![0, 0, 0, 0]]);
    assert_eq!(maps.layer(0).unwrap().0, vec![vec![0u8; 4]; 3]);
}

#[test]
fn exact_brush_sees_each_cells_old_density() {
    let mut maps = scene_maps(1, 2, 2);
    maps.layer_mut(0).unwrap().0 = vec![vec![10, 20], vec![30, 40]];
    let result = apply_tool_edit(&mut maps, tool(0, 0), BrushType::SetExact, IntVec2::new(2, 2), 0, 0, |_x, _y, old| {
        Some(old / 2)
    });
    assert_eq!(result, ToolEditResult::Painted);
    assert_eq!(maps.layer(0).unwrap().0, vec![vec![5, 10], vec![15, 20]]);
}

#[test]
fn exact_brush_stays_inside_the_scene_bounds() {
    let mut maps = scene_maps(1, 3, 3);
    apply_tool_edit(&mut maps, tool(0, 1), BrushType::SetExact, IntVec2::new(2, 1), 0, 0, |_x, _y, _old| Some(1));
    assert_eq!(maps.layer(0).unwrap().0, vec![vec![1, 1, 0], vec![0, 0, 0], vec![0, 0, 0]]);
}

#[test]
fn exact_brush_visits_columns_then_rows() {
    let mut maps = scene_maps(1, 2, 2);
    let visits = std::cell::RefCell::new(Vec::new());
    apply_tool_edit(&mut maps, tool(0, 1), BrushType::SetExact, IntVec2::new(2, 2), 0, 0, |x, y, _old| {
        visits.borrow_mut().push((x, y));
        None
    });
    assert_eq!(visits.into_inner(), vec![(0, 0), (0, 1), (1, 0), (1, 1)]);
}

#[test]
fn stroke_reaching_nothing_changes_nothing() {
    let mut maps = scene_maps(1, 3, 2);
    maps.layer_mut(0).unwrap().0[1][2] = 77;
    apply_tool_edit(&mut maps, tool(0, 200), BrushType::SetExact, IntVec2::new(3, 2), 0, 0, |_x, _y, _old| None);
    assert_eq!(maps.layer(0).unwrap().0, vec![vec![0, 0, 0], vec![0, 0, 77]]);
}

#[test]
fn eye_dropper_reads_what_was_painted() {
    let mut maps = scene_maps(1, 3, 3);
    apply_tool_edit(&mut maps, tool(0, 123), BrushType::SetExact, IntVec2::new(3, 3), 0, 0, |x, y, _old| {
        if x == 2 && y == 1 { Some(123) } else { None }
    });
    let picked = apply_tool_edit(&mut maps, tool(0, 0), BrushType::EyeDropper, IntVec2::new(3, 3), 2, 1, |_x, _y, _old| None);
    assert_eq!(picked, ToolEditResult::Picked(FoliageBrushEvent::EyeDropFoliageDensity { density: 123 }));
}

#[test]
fn eye_dropper_outside_bounds_picks_nothing() {
    let mut maps = scene_maps(1, 3, 3);
    let result = apply_tool_edit(&mut maps, tool(0, 0), BrushType::EyeDropper, IntVec2::new(3, 3), 3, 0, |_x, _y, _old| Some(1));
    assert_eq!(result, ToolEditResult::PickedOutside);
    assert_eq!(maps.layer(0).unwrap().0, vec![vec![0u8; 3]; 3]);
}

#[test]
fn missing_layer_is_reported() {
    let mut maps = scene_maps(1, 2, 2);
    let result = apply_tool_edit(&mut maps, tool(3, 5), BrushType::SetExact, IntVec2::new(2, 2), 0, 0, |_x, _y, _old| Some(5));
    assert_eq!(result, ToolEditResult::LayerMissing);
    assert_eq!(maps.layer(0).unwrap().0, vec![vec![0u8; 2]; 2]);
}

#[test]
fn smoothing_brush_is_not_implemented() {
    let mut maps = scene_maps(1, 2, 2);
    let result = apply_tool_edit(&mut maps, tool(0, 5), BrushType::Smooth, IntVec2::new(2, 2), 0, 0, |_x, _y, _old| Some(5));
    assert_eq!(result, ToolEditResult::BrushNotImplemented);
    assert_eq!(maps.layer(0).unwrap().0, vec![vec![0u8; 2]; 2]);
}

#[test]
fn painting_skips_cells_the_map_lacks() {
    let mut map = FoliageDensityMapU8(vec![vec![1, 2, 3], vec![4]]);
    map.paint_with(3, 2, |_x, _y, old| Some(old + 10));
    assert_eq!(map.0, vec![vec![11, 12, 13], vec![14]]);
}

#[test]
fn brush_labels() {
    assert_eq!(BrushType::SetExact.label(), "SetExact");
    assert_eq!(BrushType::Smooth.label(), "Smooth");
    assert_eq!(BrushType::EyeDropper.label(), "EyeDropper");
    assert_eq!(BrushType::default(), BrushType::SetExact);
}

#[test]
fn save_command_exists() {
    assert_eq!(FoliageCommandEvent::SaveAll, FoliageCommandEvent::SaveAll);
}

#[test]
fn tool_edit_inputs_are_checked() {
    let mut maps = scene_maps(1, 2, 2);
    maps.layer_mut(0).unwrap().0 = vec![vec![1, 2], vec![3]];
    assert!(bevy_foliage_tool::edit::tool_edit_inputs_ok(&maps, tool(0, 0), BrushType::EyeDropper, IntVec2::new(2, 2), 0, 1));
    assert!(!bevy_foliage_tool::edit::tool_edit_inputs_ok(&maps, tool(0, 0), BrushType::EyeDropper, IntVec2::new(2, 2), 1, 1));
    assert!(bevy_foliage_tool::edit::tool_edit_inputs_ok(&maps, tool(0, 0), BrushType::SetExact, IntVec2::new(2, 2), 1, 1));
    assert!(bevy_foliage_tool::edit::tool_edit_inputs_ok(&maps, tool(0, 0), BrushType::EyeDropper, IntVec2::new(2, 2), 5, 5));
    assert!(!bevy_foliage_tool::edit::tool_edit_inputs_ok(&maps, tool(0, 0), BrushType::SetExact, IntVec2::new(-1, 2), 0, 0));
    assert!(bevy_foliage_tool::edit::tool_edit_inputs_ok(&maps, tool(0, 0), BrushType::Smooth, IntVec2::new(-1, 2), 0, 0));
    assert!(bevy_foliage_tool::edit::tool_edit_inputs_ok(&maps, tool(7, 0), BrushType::EyeDropper, IntVec2::new(9, 9), 8, 8));
}

#[test]
fn negative_bounds_wrap_for_the_eye_dropper() {
    let mut maps = scene_maps(1, 2, 2);
    maps.layer_mut(0).unwrap().0[1][1] = 31;
    assert!(bevy_foliage_tool::edit::tool_edit_inputs_ok(&maps, tool(0, 0), BrushType::EyeDropper, IntVec2::new(-1, -1), 1, 1));
    let result = apply_tool_edit(&mut maps, tool(0, 0), BrushType::EyeDropper, IntVec2::new(-1, -1), 1, 1, |_x, _y, _old| None);
    assert_eq!(result, ToolEditResult::Picked(FoliageBrushEvent::EyeDropFoliageDensity { density: 31 }));
}

#[test]
fn negative_bounds_are_harmless_where_nothing_is_painted() {
    let mut maps = scene_maps(1, 2, 2);
    let result = apply_tool_edit(&mut maps, tool(0, 0), BrushType::Smooth, IntVec2::new(-4, -4), 0, 0, |_x, _y, _old| Some(1));
    assert_eq!(result, ToolEditResult::BrushNotImplemented);
    let result = apply_tool_edit(&mut maps, tool(5, 0), BrushType::SetExact, IntVec2::new(-4, -4), 0, 0, |_x, _y, _old| Some(1));
    assert_eq!(result, ToolEditResult::LayerMissing);
    assert!(!bevy_foliage_tool::edit::tool_edit_inputs_ok(&maps, tool(0, 0), BrushType::SetExact, IntVec2::new(-4, -4), 0, 0));
}

#[test]
fn exact_brush_without_columns_ignores_negative_rows() {
    let mut maps = scene_maps(1, 2, 2);
    assert!(bevy_foliage_tool::edit::tool_edit_inputs_ok(&maps, tool(0, 0), BrushType::SetExact, IntVec2::new(0, -3), 0, 0));
    assert!(!bevy_foliage_tool::edit::tool_edit_inputs_ok(&maps, tool(0, 0), BrushType::SetExact, IntVec2::new(1, -3), 0, 0));
    let result = apply_tool_edit(&mut maps, tool(0, 9), BrushType::SetExact, IntVec2::new(0, -3), 0, 0, |_x, _y, _old| Some(9));
    assert_eq!(result, ToolEditResult::Painted);
    assert_eq!(maps.layer(0).unwrap().0, vec![vec![0u8; 2]; 2]);
}
