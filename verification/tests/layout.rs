use lune_std_ffi::composite::{ArrayType, StructType};
use lune_std_ffi::descriptor::{AbiKind, NativeType};
use lune_std_ffi::error::HandleError;
use lune_std_ffi::layout::round_up;

fn integer(width: usize) -> NativeType {
    NativeType::integer(width, false).unwrap()
}

fn offsets(t: &StructType) -> Vec<usize> {
    (0..t.len()).map(|i| t.offset(i).unwrap()).collect()
}

#[test]
fn rounding_up_to_an_alignment() {
    assert_eq!(round_up(0, 4), Some(0));
    assert_eq!(round_up(1, 4), Some(4));
    assert_eq!(round_up(4, 4), Some(4));
    assert_eq!(round_up(5, 8), Some(8));
    assert_eq!(round_up(17, 1), Some(17));
    assert_eq!(round_up(17, 0), Some(17));
    assert_eq!(round_up(usize::MAX, 1), Some(usize::MAX));
    assert_eq!(round_up(usize::MAX, 2), None);
    assert_eq!(round_up(usize::MAX - 7, 8), Some(usize::MAX - 7));
    assert_eq!(round_up(usize::MAX - 6, 8), None);
}

#[test]
fn struct_of_u8_and_u32_has_standard_padding() {
    let t = StructType::new(vec![integer(1), integer(4)]).unwrap();
    assert_eq!(offsets(&t), vec![0, 4]);
    assert_eq!(t.size(), 8);
    assert_eq!(t.alignment(), 4);
}

#[test]
fn struct_layouts_follow_the_c_rules() {
    let t = StructType::new(vec![integer(4), integer(1)]).unwrap();
    assert_eq!((offsets(&t), t.size(), t.alignment()), (vec![0, 4], 8, 4));
    let t = StructType::new(vec![integer(1), integer(8), integer(2)]).unwrap();
    assert_eq!((offsets(&t), t.size(), t.alignment()), (vec![0, 8, 16], 24, 8));
    let t = StructType::new(vec![integer(1), integer(2), integer(1), integer(4)]).unwrap();
    assert_eq!((offsets(&t), t.size(), t.alignment()), (vec![0, 2, 4, 8], 12, 4));
    let t = StructType::new(vec![integer(1), integer(1), integer(1)]).unwrap();
    assert_eq!((offsets(&t), t.size(), t.alignment()), (vec![0, 1, 2], 3, 1));
    let t = StructType::new(vec![NativeType::pointer(), integer(1)]).unwrap();
    assert_eq!((offsets(&t), t.size(), t.alignment()), (vec![0, 8], 16, 8));
    let t = StructType::new(vec![]).unwrap();
    assert_eq!((offsets(&t), t.size(), t.alignment()), (vec![], 0, 1));
}

#[test]
fn every_member_ordering_is_laid_out_soundly() {
    let widths = [1usize, 2, 4, 8];
    for a in widths {
        for b in widths {
            for c in widths {
                for d in widths {
                    let members = vec![integer(a), integer(b), integer(c), integer(d)];
                    let t = StructType::new(members.clone()).unwrap();
                    let at = offsets(&t);
                    let largest = *[a, b, c, d].iter().max().unwrap();
                    assert_eq!(t.alignment(), largest);
                    assert_eq!(t.size() % largest, 0);
                    for i in 0..4 {
                        assert_eq!(at[i] % members[i].alignment(), 0);
                        let end = at[i] + members[i].size();
                        if i + 1 < 4 {
                            assert!(end <= at[i + 1]);
                            assert!(at[i + 1] - end < members[i + 1].alignment());
                        } else {
                            assert!(end <= t.size());
                            assert!(t.size() - end < largest);
                        }
                    }
                }
            }
        }
    }
}

#[test]
fn struct_members_by_index() {
    let t = StructType::new(vec![integer(1), NativeType::integer(4, true).unwrap()]).unwrap();
    assert_eq!(t.len(), 2);
    assert_eq!(t.member(1), Ok(NativeType::integer(4, true).unwrap()));
    assert_eq!(t.member(2), Err(HandleError::IndexOutOfRange));
    assert_eq!(t.offset(2), Err(HandleError::IndexOutOfRange));
    let copy = t.clone();
    assert_eq!(offsets(&copy), vec![0, 4]);
    assert_eq!(copy.member(0), Ok(integer(1)));
}

#[test]
fn structs_nest_as_aggregates() {
    let inner = StructType::new(vec![integer(1), integer(4)]).unwrap();
    let d = inner.descriptor();
    assert_eq!((d.kind(), d.size(), d.alignment()), (AbiKind::Aggregate, 8, 4));
    let outer = StructType::new(vec![integer(1), d, integer(2)]).unwrap();
    assert_eq!((offsets(&outer), outer.size(), outer.alignment()), (vec![0, 4, 12], 16, 4));
}

#[test]
fn arrays_have_no_padding_between_elements() {
    let t = ArrayType::new(integer(4), 5).unwrap();
    assert_eq!((t.size(), t.alignment(), t.count()), (20, 4, 5));
    assert_eq!(t.element(), integer(4));
    for i in 0..5 {
        assert_eq!(t.offset(i), Ok(4 * i));
    }
    assert_eq!(t.offset(5), Err(HandleError::IndexOutOfRange));
    assert_eq!(t.offset(usize::MAX), Err(HandleError::IndexOutOfRange));
    let d = t.descriptor();
    assert_eq!((d.kind(), d.size(), d.alignment()), (AbiKind::Aggregate, 20, 4));
    let empty = ArrayType::new(integer(8), 0).unwrap();
    assert_eq!(empty.size(), 0);
    assert_eq!(empty.offset(0), Err(HandleError::IndexOutOfRange));
}

#[test]
fn layouts_beyond_the_machine_word_do_not_exist() {
    assert!(ArrayType::new(integer(8), usize::MAX).is_none());
    assert!(ArrayType::new(integer(1), usize::MAX).is_some());
    let huge = ArrayType::new(integer(1), usize::MAX).unwrap().descriptor();
    assert!(StructType::new(vec![huge, integer(1)]).is_none());
    assert!(StructType::new(vec![integer(1), huge]).is_none());
    assert!(StructType::new(vec![huge]).is_some());
    let most = ArrayType::new(integer(1), usize::MAX - 1).unwrap().descriptor();
    assert!(StructType::new(vec![most, integer(1)]).is_some());
    assert!(StructType::new(vec![most, integer(2)]).is_none());
}

#[test]
fn slots_of_a_struct() {
    let t = StructType::new(vec![integer(2), NativeType::pointer(), integer(1)]).unwrap();
    assert_eq!(t.slot(0), (0, integer(2)));
    assert_eq!(t.slot(1), (8, NativeType::pointer()));
    assert_eq!(t.slot(2), (16, integer(1)));
}
