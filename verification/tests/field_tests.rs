use fluid_sim::field::{
    ArrayView, CopyError, DoubleBufferedField, FieldBuffer, FilterMode, PixelFormat,
    SamplingParams, WrapMode,
};

fn sampling() -> SamplingParams {
    SamplingParams { filter: FilterMode::Nearest, wrap: WrapMode::ClampToEdge }
}

fn rg_field(id: u32, w: usize, h: usize, data: &[i32]) -> FieldBuffer {
    FieldBuffer::create(id, w, h, PixelFormat::Rg, Some(ArrayView::create(data)), sampling())
}

#[test]
fn create_stores_dimensions_and_contents() {
    let data = vec![7i32; 64 * 32 * 2];
    let f = rg_field(3, 64, 32, &data);
    assert_eq!(f.width(), 64);
    assert_eq!(f.height(), 32);
    assert_eq!(f.id(), 3);
    assert_eq!(f.data, data);
}

#[test]
fn texel_size_is_reciprocal_in_fixed_point() {
    let data = vec![0i32; 64 * 32 * 2];
    let f = rg_field(0, 64, 32, &data);
    let t = f.texel_size();
    assert_eq!(t.x, 65536 / 64);
    assert_eq!(t.y, 65536 / 32);
}

#[test]
fn attach_returns_the_unit() {
    let data = vec![0i32; 4 * 4 * 2];
    let f = rg_field(0, 4, 4, &data);
    assert_eq!(f.attach(5), 5);
}

#[test]
fn copy_from_matching_fields_is_bit_identical() {
    let src_data: Vec<i32> = (0..4 * 4 * 2).map(|i| i * 31 - 99).collect();
    let src = rg_field(1, 4, 4, &src_data);
    let mut dst = rg_field(2, 4, 4, &vec![0i32; 4 * 4 * 2]);
    assert_eq!(dst.copy_from(&src), Ok(()));
    assert_eq!(dst.data, src_data);
}

#[test]
fn copy_from_size_mismatch_fails() {
    let src = rg_field(1, 4, 4, &vec![0i32; 4 * 4 * 2]);
    let mut dst = rg_field(2, 8, 4, &vec![0i32; 8 * 4 * 2]);
    let before = dst.data.clone();
    assert_eq!(dst.copy_from(&src), Err(CopyError::SizeMismatch));
    assert_eq!(dst.data, before);
}

#[test]
fn copy_from_format_mismatch_fails() {
    let src = rg_field(1, 4, 4, &vec![0i32; 4 * 4 * 2]);
    let mut dst = FieldBuffer::create(
        2,
        4,
        4,
        PixelFormat::Rgba,
        Some(ArrayView::create(&vec![0i32; 4 * 4 * 4])),
        sampling(),
    );
    assert_eq!(dst.copy_from(&src), Err(CopyError::FormatMismatch));
}

#[test]
fn size_mismatch_takes_precedence_over_format() {
    let src = rg_field(1, 4, 4, &vec![0i32; 4 * 4 * 2]);
    let mut dst = FieldBuffer::create(
        2,
        8,
        8,
        PixelFormat::Rgba,
        Some(ArrayView::create(&vec![0i32; 8 * 8 * 4])),
        sampling(),
    );
    assert_eq!(dst.copy_from(&src), Err(CopyError::SizeMismatch));
}

#[test]
fn swap_twice_is_identity_on_read_and_write() {
    let a = rg_field(10, 4, 4, &vec![1i32; 4 * 4 * 2]);
    let b = rg_field(20, 4, 4, &vec![2i32; 4 * 4 * 2]);
    let mut d = DoubleBufferedField::create(a, b);
    let read_before = d.read().id();
    let write_before = d.write().id();
    d.swap();
    d.swap();
    assert_eq!(d.read().id(), read_before);
    assert_eq!(d.write().id(), write_before);
}

#[test]
fn swap_exchanges_roles_without_moving_data() {
    let a = rg_field(10, 4, 4, &vec![1i32; 4 * 4 * 2]);
    let b = rg_field(20, 4, 4, &vec![2i32; 4 * 4 * 2]);
    let mut d = DoubleBufferedField::create(a, b);
    assert_eq!(d.read().id(), 10);
    assert_eq!(d.write().id(), 20);
    d.swap();
    assert_eq!(d.read().id(), 20);
    assert_eq!(d.write().id(), 10);
    assert_eq!(d.read().data, vec![2i32; 4 * 4 * 2]);
}

#[test]
fn read_and_write_never_alias() {
    let a = rg_field(10, 4, 4, &vec![0i32; 4 * 4 * 2]);
    let b = rg_field(20, 4, 4, &vec![0i32; 4 * 4 * 2]);
    let mut d = DoubleBufferedField::create(a, b);
    assert_ne!(d.read().id(), d.write().id());
    d.swap();
    assert_ne!(d.read().id(), d.write().id());
}

#[test]
fn array_view_wraps_a_slice() {
    let data = [1i32, 2, 3];
    let v = ArrayView::create(&data);
    assert_eq!(v.data, &[1, 2, 3]);
}

#[test]
fn array_view_mut_wraps_a_slice() {
    let mut data = [1i32, 2, 3];
    let v = fluid_sim::field::ArrayViewMut::create(&mut data);
    v.data[0] = 9;
    assert_eq!(data, [9, 2, 3]);
}
