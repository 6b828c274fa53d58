use inference_engine::arena::{Arena, ArenaError, Section};

#[test]
fn test_arena_creation() {
    let arena: Arena = Arena::new(1024, 2048, 512);
    assert_eq!(arena.capacity(), 1024 + 2048 + 512);
}

#[test]
fn test_tensor_views() {
    let mut arena: Arena = Arena::new(100, 200, 50);

    // Write to activation section
    {
        let mut view = arena.view_mut(Section::Activations, 0, 10, vec![2, 5]);
        let data = view.data_mut();
        data[0] = 1.0f32.to_bits();
        data[9] = 9.0f32.to_bits();
    }

    // Read from activation section
    {
        let view = arena.view(Section::Activations, 0, 10, vec![2, 5]);
        let data = view.data();
        assert_eq!(f32::from_bits(data[0]), 1.0);
        assert_eq!(f32::from_bits(data[9]), 9.0);
    }
}

#[test]
fn test_clear_activations() {
    let mut arena: Arena = Arena::new(100, 200, 50);

    // Write some data
    {
        let mut view = arena.view_mut(Section::Activations, 0, 10, vec![10]);
        view.data_mut().fill(5.0f32.to_bits());
    }

    // Clear
    arena.clear_activations();

    // Verify cleared
    {
        let view = arena.view(Section::Activations, 0, 10, vec![10]);
        assert!(view.data().iter().all(|&x| f32::from_bits(x) == 0.0));
    }
}

#[test]
fn new_arena_sections_have_requested_sizes_and_zeros() {
    let arena = Arena::new(3, 4, 5);
    assert_eq!(arena.section_slice(Section::Weights), &[0u32; 3]);
    assert_eq!(arena.section_slice(Section::Activations), &[0u32; 4]);
    assert_eq!(arena.section_slice(Section::IO), &[0u32; 5]);
}

#[test]
fn view_reports_shape_and_length() {
    let arena = Arena::new(0, 12, 0);
    let view = arena.view(Section::Activations, 2, 6, vec![2, 3]);
    assert_eq!(view.shape(), &[2, 3]);
    assert_eq!(view.len(), 6);
    assert!(!view.is_empty());
    let empty = arena.view(Section::Activations, 12, 0, vec![0]);
    assert!(empty.is_empty());
}

#[test]
fn write_to_one_section_leaves_the_others() {
    let mut arena = Arena::new(4, 4, 4);
    {
        let mut view = arena.view_mut(Section::IO, 1, 2, vec![2]);
        assert_eq!(view.shape(), &[2]);
        view.data_mut().copy_from_slice(&[7, 8]);
        assert_eq!(view.data(), &[7, 8]);
    }
    assert_eq!(arena.section_slice(Section::IO), &[0, 7, 8, 0]);
    assert_eq!(arena.section_slice(Section::Weights), &[0, 0, 0, 0]);
    assert_eq!(arena.section_slice(Section::Activations), &[0, 0, 0, 0]);
}

#[test]
fn section_slice_mut_replaces_the_section() {
    let mut arena = Arena::new(2, 3, 1);
    arena.section_slice_mut(Section::Activations).copy_from_slice(&[1, 2, 3]);
    assert_eq!(arena.section_slice(Section::Activations), &[1, 2, 3]);
    assert_eq!(arena.section_slice(Section::Weights), &[0, 0]);
    assert_eq!(arena.section_slice(Section::IO), &[0]);
}

#[test]
fn clear_activations_keeps_weights_and_io() {
    let mut arena = Arena::new(2, 2, 2);
    arena.section_slice_mut(Section::Weights).copy_from_slice(&[1, 2]);
    arena.section_slice_mut(Section::Activations).copy_from_slice(&[3, 4]);
    arena.section_slice_mut(Section::IO).copy_from_slice(&[5, 6]);
    arena.clear_activations();
    assert_eq!(arena.section_slice(Section::Weights), &[1, 2]);
    assert_eq!(arena.section_slice(Section::Activations), &[0, 0]);
    assert_eq!(arena.section_slice(Section::IO), &[5, 6]);
}

#[test]
fn load_weights_rejects_wrong_size() {
    let mut arena = Arena::new(2, 1, 1);
    let r = arena.load_weights(&[1, 2, 3]);
    assert_eq!(r, Err(ArenaError::SizeMismatch { expected: 8, actual: 3 }));
    assert_eq!(arena.section_slice(Section::Weights), &[0, 0]);
}

#[test]
fn load_weights_reads_native_words() {
    let mut arena = Arena::new(2, 1, 1);
    let mut bytes = Vec::new();
    bytes.extend_from_slice(&1.5f32.to_ne_bytes());
    bytes.extend_from_slice(&(-2.0f32).to_ne_bytes());
    assert_eq!(arena.load_weights(&bytes), Ok(()));
    let weights = arena.section_slice(Section::Weights);
    assert_eq!(f32::from_bits(weights[0]), 1.5);
    assert_eq!(f32::from_bits(weights[1]), -2.0);
    assert_eq!(arena.section_slice(Section::Activations), &[0]);
}
