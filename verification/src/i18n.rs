//! Interface strings of the knowledge base, in Russian, looked up by key.

use vstd::prelude::*;
use vstd::hash_map::StringHashMap;
use vstd::string::*;

verus! {

/// The interface strings that the knowledge base ships with: each key and
/// its Russian text.
pub open spec fn interface_strings() -> Map<Seq<char>, Seq<char>> {
    map![
        "app_title"@ => "База знаний"@,
        "search_placeholder"@ => "Поиск по заголовкам, содержанию, тегам..."@,
        "new_article"@ => "Новая статья"@,
        "edit"@ => "Редактировать"@,
        "delete"@ => "Удалить"@,
        "save"@ => "Сохранить"@,
        "cancel"@ => "Отмена"@,
        "title"@ => "Заголовок"@,
        "content"@ => "Содержание"@,
        "tags"@ => "Теги (через запятую)"@,
        "author"@ => "Автор"@,
        "pinned"@ => "Закреплено"@,
        "created"@ => "Создано"@,
        "updated"@ => "Обновлено"@,
        "no_pages"@ => "Статей пока нет. Создайте первую!"@,
        "loading"@ => "Загрузка..."@,
        "theme"@ => "Тема"@,
        "all_articles"@ => "Все статьи"@,
        "by"@ => "от"@,
        "search_results"@ => "Найдено"@,
        "of"@ => "из"@,
        "not_found"@ => "Страница не найдена"@,
        "back_to_list"@ => "Вернуться к списку"@,
        "pin"@ => "Закрепить"@,
        "unpin"@ => "Открепить"@,
    ]
}

/// What a lookup of `key` in `table` answers: the text stored for the key,
/// or the key itself when the table has no text for it.
pub open spec fn lookup(table: Map<Seq<char>, Seq<char>>, key: Seq<char>) -> Seq<char> {
    if table.contains_key(key) {
        table[key]
    } else {
        key
    }
}

/// A table of interface strings, keyed by string.
pub struct I18n {
    pub translations: StringHashMap<String>,
}

impl View for I18n {
    type V = Map<Seq<char>, Seq<char>>;

    /// Each key of the table and the text stored for it.
    open spec fn view(&self) -> Map<Seq<char>, Seq<char>> {
        Map::new(
            |k: Seq<char>| self.translations@.contains_key(k),
            |k: Seq<char>| self.translations@[k]@,
        )
    }
}

impl I18n {
    fn add(&mut self, key: &str, text: &str)
        ensures
            final(self)@ == old(self)@.insert(key@, text@),
    {
        self.translations.insert(String::from_str(key), String::from_str(text));
        assert(self@ =~= old(self)@.insert(key@, text@));
    }

    /// The table of the interface strings that the knowledge base ships with.
    pub fn new() -> (res: Self)
        ensures
            res@ == interface_strings(),
    {
        let mut i18n = I18n { translations: StringHashMap::new() };
        assert(i18n@ =~= Map::<Seq<char>, Seq<char>>::empty());
        i18n.add("app_title", "База знаний");
        i18n.add("search_placeholder", "Поиск по заголовкам, содержанию, тегам...");
        i18n.add("new_article", "Новая статья");
        i18n.add("edit", "Редактировать");
        i18n.add("delete", "Удалить");
        i18n.add("save", "Сохранить");
        i18n.add("cancel", "Отмена");
        i18n.add("title", "Заголовок");
        i18n.add("content", "Содержание");
        i18n.add("tags", "Теги (через запятую)");
        i18n.add("author", "Автор");
        i18n.add("pinned", "Закреплено");
        i18n.add("created", "Создано");
        i18n.add("updated", "Обновлено");
        i18n.add("no_pages", "Статей пока нет. Создайте первую!");
        i18n.add("loading", "Загрузка...");
        i18n.add("theme", "Тема");
        i18n.add("all_articles", "Все статьи");
        i18n.add("by", "от");
        i18n.add("search_results", "Найдено");
        i18n.add("of", "из");
        i18n.add("not_found", "Страница не найдена");
        i18n.add("back_to_list", "Вернуться к списку");
        i18n.add("pin", "Закрепить");
        i18n.add("unpin", "Открепить");
        i18n
    }

    /// The text for `key`, or `key` itself when the table has none.
    pub fn get(&self, key: &str) -> (res: String)
        ensures
            res@ == lookup(self@, key@),
    {
        match self.translations.get(key) {
            Some(text) => text.clone(),
            None => String::from_str(key),
        }
    }
}

} // verus!
